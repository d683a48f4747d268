//! The transposition table: a fixed-size, direct-mapped, always-replace
//! cache of search results, indexed by the low bits of the position hash
//! and verified against collisions by storing the full key.
use vstd::prelude::*;

use crate::model::Mv;

verus! {

/// Every score the search can produce lies within this bound: the largest
/// mate score is 9,999,999 plus the largest representable depth.
pub const SCORE_BOUND: i32 = 10_000_126;

/// What a stored score means relative to the true score of the node.
#[derive(Clone, Copy, PartialEq, Eq, Structural, Debug)]
pub enum TtFlags {
    NONE,
    EXACT,
    LOWER,
    UPPER,
}

/// One table slot. A slot with flag `NONE` counts as empty.
#[derive(Clone, Copy, PartialEq, Eq, Structural, Debug)]
pub struct TtEntry {
    pub key: u64,
    pub score: i32,
    pub depth: i8,
    pub flag: TtFlags,
    pub best_move: Option<Mv>,
}

impl TtEntry {
    /// A stored score within the search's score bound, and a stored move,
    /// if any, on the board.
    pub open spec fn wf(self) -> bool {
        &&& -SCORE_BOUND <= self.score <= SCORE_BOUND
        &&& match self.best_move {
            Some(m) => m.wf(),
            None => true,
        }
    }
}

/// The empty slot: zero key and score, depth 0, flag `NONE`, no move.
pub open spec fn empty_entry() -> TtEntry {
    TtEntry { key: 0, score: 0, depth: 0, flag: TtFlags::NONE, best_move: None }
}

impl Default for TtEntry {
    /// The empty slot.
    fn default() -> (r: TtEntry)
        ensures
            r == empty_entry(),
            r.wf(),
    {
        TtEntry { key: 0, score: 0, depth: 0, flag: TtFlags::NONE, best_move: None }
    }
}

/// The table slot that a hash key maps to.
pub open spec fn spec_slot(mask: u64, hash_key: u64) -> int {
    (hash_key & mask) as int
}

/// The transposition table.
pub struct Tt {
    pub table: Vec<TtEntry>,
    pub mask: u64,
}

impl Tt {
    /// The table covers exactly the slots the mask can address, and every
    /// slot is well-formed.
    pub open spec fn wf(&self) -> bool {
        &&& self.table@.len() == self.mask as int + 1
        &&& forall|i: int| 0 <= i < self.table@.len() ==> (#[trigger] self.table@[i]).wf()
    }

    /// Build a table of `size` slots, all empty. `size` must be a power of
    /// two so that masking with `size - 1` addresses every slot.
    pub fn new(size: u64) -> (r: Tt)
        requires
            1 <= size <= usize::MAX as u64,
            size & (size - 1) as u64 == 0,
        ensures
            r.wf(),
            r.mask == size - 1,
            forall|i: int| 0 <= i < r.table@.len() ==> #[trigger] r.table@[i] == empty_entry(),
    {
        let n = size as usize;
        let mut table: Vec<TtEntry> = Vec::new();
        for i in 0..n
            invariant
                table@.len() == i as int,
                forall|j: int| 0 <= j < i as int ==> #[trigger] table@[j] == empty_entry(),
        {
            table.push(TtEntry::default());
        }
        Tt { table, mask: size - 1 }
    }

    /// The entry at the key's slot, if its full key matches and it was
    /// stored at least `depth` deep; a collision or a shallower entry is a
    /// miss.
    pub fn probe(&self, hash_key: u64, depth: i8) -> (r: Option<TtEntry>)
        requires
            self.wf(),
        ensures
            ({
                let e = self.table@[spec_slot(self.mask, hash_key)];
                if e.key == hash_key && e.depth >= depth {
                    r == Some(e)
                } else {
                    r is None
                }
            }),
            match r {
                Some(e) => e.wf(),
                None => true,
            },
    {
        let n = self.table.len();
        proof {
            lemma_slot_in_range(self.mask, hash_key);
        }
        let index = (hash_key & self.mask) as usize;
        let entry = self.table[index];
        if entry.key == hash_key && entry.depth >= depth {
            Some(entry)
        } else {
            None
        }
    }

    /// Overwrite the key's slot unconditionally (always-replace).
    pub fn store(&mut self, hash_key: u64, depth: i8, score: i32, flag: TtFlags, best_move: Option<Mv>)
        requires
            old(self).wf(),
            -SCORE_BOUND <= score <= SCORE_BOUND,
            match best_move {
                Some(m) => m.wf(),
                None => true,
            },
        ensures
            final(self).wf(),
            final(self).mask == old(self).mask,
            final(self).table@ == old(self).table@.update(
                spec_slot(old(self).mask, hash_key),
                TtEntry { key: hash_key, score, depth, flag, best_move },
            ),
            final(self).table@[spec_slot(old(self).mask, hash_key)] == (TtEntry {
                key: hash_key,
                score,
                depth,
                flag,
                best_move,
            }),
    {
        let n = self.table.len();
        proof {
            lemma_slot_in_range(self.mask, hash_key);
        }
        let index = (hash_key & self.mask) as usize;
        self.table.set(index, TtEntry { key: hash_key, score, depth, flag, best_move });
    }
}

/// Masking keeps the slot index inside the table.
pub proof fn lemma_slot_in_range(mask: u64, hash_key: u64)
    ensures
        0 <= spec_slot(mask, hash_key) <= mask as int,
{
    assert(hash_key & mask <= mask) by (bit_vector);
}

} // verus!
