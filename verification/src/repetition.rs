//! Repetition detection: a position counts as repeated when its hash has
//! already appeared at least twice across the game history and the current
//! search path.
use vstd::prelude::*;

verus! {

/// How many times `key` occurs in `s`.
pub open spec fn count_occurrences(s: Seq<u64>, key: u64) -> int
    decreases s.len(),
{
    if s.len() == 0 {
        0
    } else {
        count_occurrences(s.drop_last(), key) + if s.last() == key {
            1int
        } else {
            0int
        }
    }
}

/// A key counts as a repetition when it already occurs at least twice in
/// the game history and the search path together.
pub open spec fn is_rep(history: Seq<u64>, path: Seq<u64>, key: u64) -> bool {
    count_occurrences(history, key) + count_occurrences(path, key) >= 2
}

/// Occurrence counts are nonnegative.
pub proof fn lemma_count_nonneg(s: Seq<u64>, key: u64)
    ensures
        count_occurrences(s, key) >= 0,
    decreases s.len(),
{
    if s.len() > 0 {
        lemma_count_nonneg(s.drop_last(), key);
    }
}

/// Counting one more element extends the count of the prefix.
pub proof fn lemma_count_take_step(s: Seq<u64>, key: u64, n: int)
    requires
        0 <= n < s.len(),
    ensures
        count_occurrences(s.take(n + 1), key) == count_occurrences(s.take(n), key) + if s[n] == key {
            1int
        } else {
            0int
        },
{
    assert(s.take(n + 1).drop_last() =~= s.take(n));
    assert(s.take(n + 1).last() == s[n]);
}

/// A prefix never holds more occurrences than the whole.
pub proof fn lemma_count_take_le(s: Seq<u64>, key: u64, n: int)
    requires
        0 <= n <= s.len(),
    ensures
        count_occurrences(s.take(n), key) <= count_occurrences(s, key),
    decreases s.len() - n,
{
    if n == s.len() {
        assert(s.take(n) =~= s);
    } else {
        lemma_count_take_step(s, key, n);
        lemma_count_take_le(s, key, n + 1);
    }
}

/// Decide whether `hash_key` occurs at least twice across `history` and
/// `path` together.
pub fn is_repetition(history: &Vec<u64>, path: &Vec<u64>, hash_key: u64) -> (r: bool)
    ensures
        r == is_rep(history@, path@, hash_key),
{
    let mut occurrences: u64 = 0;
    for i in 0..history.len()
        invariant
            occurrences as int == count_occurrences(history@.take(i as int), hash_key),
            occurrences < 2,
    {
        proof {
            lemma_count_take_step(history@, hash_key, i as int);
        }
        if history[i] == hash_key {
            occurrences = occurrences + 1;
            if occurrences >= 2 {
                proof {
                    lemma_count_take_le(history@, hash_key, i as int + 1);
                    lemma_count_nonneg(path@, hash_key);
                }
                return true;
            }
        }
    }
    proof {
        assert(history@.take(history@.len() as int) =~= history@);
    }
    for i in 0..path.len()
        invariant
            occurrences as int == count_occurrences(history@, hash_key) + count_occurrences(
                path@.take(i as int),
                hash_key,
            ),
            occurrences < 2,
    {
        proof {
            lemma_count_take_step(path@, hash_key, i as int);
        }
        if path[i] == hash_key {
            occurrences = occurrences + 1;
            if occurrences >= 2 {
                proof {
                    lemma_count_take_le(path@, hash_key, i as int + 1);
                }
                return true;
            }
        }
    }
    proof {
        assert(path@.take(path@.len() as int) =~= path@);
    }
    false
}

} // verus!
