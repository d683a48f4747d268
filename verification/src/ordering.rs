//! Move ordering: each candidate move gets a sort key — the known best
//! move from the transposition table first, then captures by most
//! valuable victim / least valuable attacker, then en-passant captures,
//! then everything else — and move lists are sorted by descending key.
use vstd::prelude::*;

use crate::model::{squares_wf, Mv, Pos, SquareContent};
use crate::tables::{lemma_table_bounds, EG_PIECE_VALUES, MAX_PHASE, MG_PIECE_VALUES};

verus! {

/// The sort key given to a move that the transposition table remembers as
/// best.
pub const TT_MOVE_KEY: i32 = 1_000_000;

/// The sort key given to an en-passant capture (pawn takes pawn).
pub const EP_CAPTURE_KEY: i32 = 900;

/// A candidate move paired with its sort key. Used only within a single
/// search frame.
#[derive(Clone, Copy, PartialEq, Eq, Structural, Debug)]
pub struct ScoredMove {
    pub mv: Mv,
    pub score: i32,
}

/// The tapered value of piece kind `p`: its middlegame and endgame values
/// blended by the phase.
pub open spec fn spec_tapered_value(p: int, phase: int) -> int {
    (MG_PIECE_VALUES@[p] * phase + EG_PIECE_VALUES@[p] * (24 - phase)) / 24
}

/// The rank (0-indexed) holding the en-passant target square for the side
/// to move: rank 5 when White captures, rank 2 when Black does.
pub open spec fn spec_ep_rank(white_to_move: bool) -> int {
    if white_to_move {
        5
    } else {
        2
    }
}

/// Whether `mv` has the shape of an en-passant capture: an empty target
/// square that is the en-passant target, with a pawn moving.
pub open spec fn spec_is_ep_shape(
    s: Seq<SquareContent>,
    white_to_move: bool,
    ep_file: Option<u8>,
    mv: Mv,
) -> bool {
    match ep_file {
        Some(f) => mv.to as int == 8 * spec_ep_rank(white_to_move) + f as int && (match s[mv.from as int] {
            Some(a) => a.1 == 0,
            None => false,
        }),
        None => false,
    }
}

/// The sort key of a move: the table's best move scores `TT_MOVE_KEY`;
/// a capture scores ten times the victim's tapered value minus the
/// attacker's; an en-passant capture scores `EP_CAPTURE_KEY`; anything
/// else scores zero.
pub open spec fn spec_order_key(
    s: Seq<SquareContent>,
    white_to_move: bool,
    ep_file: Option<u8>,
    mv: Mv,
    tt_move: Option<Mv>,
    phase: int,
) -> int {
    if tt_move == Some(mv) {
        TT_MOVE_KEY as int
    } else {
        match s[mv.to as int] {
            Some(v) => spec_tapered_value(v.1 as int, phase) * 10 - (match s[mv.from as int] {
                Some(a) => spec_tapered_value(a.1 as int, phase),
                None => 0,
            }),
            None => if spec_is_ep_shape(s, white_to_move, ep_file, mv) {
                EP_CAPTURE_KEY as int
            } else {
                0
            },
        }
    }
}

/// The tapered value of a real piece kind lies between 0 and 900.
pub proof fn lemma_tapered_value_range(p: int, phase: int)
    requires
        0 <= p < 6,
        0 <= phase <= 24,
    ensures
        0 <= spec_tapered_value(p, phase) <= 900,
{
    lemma_table_bounds();
    let mg = MG_PIECE_VALUES@[p] as int;
    let eg = EG_PIECE_VALUES@[p] as int;
    assert(0 <= mg * phase <= 900 * 24 && 0 <= eg * (24 - phase) <= 900 * 24 && mg * phase + eg * (
    24 - phase) <= 900 * 24) by (nonlinear_arith)
        requires
            0 <= mg <= 900,
            0 <= eg <= 900,
            0 <= phase <= 24,
    ;
    vstd::arithmetic::div_mod::lemma_div_is_ordered(0, mg * phase + eg * (24 - phase), 24);
    vstd::arithmetic::div_mod::lemma_div_is_ordered(mg * phase + eg * (24 - phase), (900 * 24) as int, 24);
}

/// A move the table does not name scores at most 9000; the table's move
/// scores exactly `TT_MOVE_KEY`.
pub proof fn lemma_order_key_range(
    s: Seq<SquareContent>,
    white_to_move: bool,
    ep_file: Option<u8>,
    mv: Mv,
    tt_move: Option<Mv>,
    phase: int,
)
    requires
        squares_wf(s),
        mv.wf(),
        0 <= phase <= 24,
    ensures
        tt_move == Some(mv) ==> spec_order_key(s, white_to_move, ep_file, mv, tt_move, phase)
            == TT_MOVE_KEY as int,
        tt_move != Some(mv) ==> -900 <= spec_order_key(s, white_to_move, ep_file, mv, tt_move, phase)
            <= 9000,
{
    if tt_move != Some(mv) {
        match s[mv.to as int] {
            Some(v) => {
                lemma_tapered_value_range(v.1 as int, phase);
                match s[mv.from as int] {
                    Some(a) => lemma_tapered_value_range(a.1 as int, phase),
                    None => {},
                }
            },
            None => {},
        }
    }
}

/// Compute the tapered value of piece kind `p` at the given phase.
fn tapered_value(p: u8, phase: i32) -> (r: i32)
    requires
        p < 6,
        0 <= phase <= MAX_PHASE,
    ensures
        r as int == spec_tapered_value(p as int, phase as int),
{
    proof {
        lemma_table_bounds();
        lemma_tapered_value_range(p as int, phase as int);
    }
    (MG_PIECE_VALUES[p as usize] * phase + EG_PIECE_VALUES[p as usize] * (MAX_PHASE - phase))
        / MAX_PHASE
}

/// Compute the sort key of `mv` in position `p`, given the transposition
/// table's best move, if any, and the game phase.
pub fn order_moves(p: &Pos, mv: Mv, tt_move: Option<Mv>, phase: i32) -> (r: i32)
    requires
        p.wf(),
        mv.wf(),
        0 <= phase <= MAX_PHASE,
    ensures
        r as int == spec_order_key(
            p.squares@,
            p.white_to_move,
            p.ep_file,
            mv,
            tt_move,
            phase as int,
        ),
{
    if let Some(t) = tt_move {
        if t == mv {
            return TT_MOVE_KEY;
        }
    }
    let victim = p.squares[mv.to as usize];
    let attacker = p.squares[mv.from as usize];
    match victim {
        Some(v) => {
            let victim_value = tapered_value(v.1, phase);
            let attacker_value = match attacker {
                Some(a) => tapered_value(a.1, phase),
                None => 0,
            };
            proof {
                lemma_tapered_value_range(v.1 as int, phase as int);
            }
            victim_value * 10 - attacker_value
        },
        None => {
            match p.ep_file {
                Some(f) => {
                    let ep_rank: u8 = if p.white_to_move {
                        5
                    } else {
                        2
                    };
                    let is_pawn = match attacker {
                        Some(a) => a.1 == 0,
                        None => false,
                    };
                    if mv.to == 8 * ep_rank + f && is_pawn {
                        EP_CAPTURE_KEY
                    } else {
                        0
                    }
                },
                None => 0,
            }
        },
    }
}

/// A move list in descending key order.
pub open spec fn sorted_desc(s: Seq<ScoredMove>) -> bool {
    forall|i: int, j: int| 0 <= i <= j < s.len() ==> s[i].score >= s[j].score
}

/// Swapping two elements leaves the multiset of elements unchanged.
proof fn lemma_swap_multiset(s: Seq<ScoredMove>, i: int, j: int)
    requires
        0 <= i < s.len(),
        0 <= j < s.len(),
    ensures
        s.update(i, s[j]).update(j, s[i]).to_multiset() == s.to_multiset(),
{
    broadcast use vstd::seq_lib::group_to_multiset_ensures;
    broadcast use vstd::multiset::group_multiset_axioms;
    broadcast use vstd::multiset::group_multiset_properties;

    if i == j {
        assert(s.update(i, s[j]).update(j, s[i]) =~= s);
    } else {
        let s1 = s.update(i, s[j]);
        assert(s1[j] == s[j]);
        assert(s.contains(s[i]));
        assert(s.to_multiset().count(s[i]) > 0);
        assert(s1.update(j, s[i]).to_multiset() =~= s.to_multiset());
    }
}

/// Sort a move list by descending key. The result holds exactly the
/// entries of the input (ties may land in any order).
pub fn sort_moves(v: &mut Vec<ScoredMove>)
    ensures
        sorted_desc(final(v)@),
        final(v)@.to_multiset() == old(v)@.to_multiset(),
        final(v)@.len() == old(v)@.len(),
        forall|i: int| 0 <= i < final(v)@.len() ==> old(v)@.contains(#[trigger] final(v)@[i]),
        forall|i: int| 0 <= i < old(v)@.len() ==> final(v)@.contains(#[trigger] old(v)@[i]),
{
    let n = v.len();
    for i in 0..n
        invariant
            v@.len() == n as int,
            v@.to_multiset() == old(v)@.to_multiset(),
            forall|a: int, b: int| 0 <= a <= b < i as int ==> v@[a].score >= v@[b].score,
            forall|a: int, b: int|
                0 <= a < i as int && i as int <= b < n as int ==> v@[a].score >= v@[b].score,
    {
        let mut m = i;
        for j in (i + 1)..n
            invariant
                i <= m < j,
                i < j <= n,
                v@.len() == n as int,
                forall|k: int| i as int <= k < j as int ==> v@[m as int].score >= v@[k].score,
        {
            if v[j].score > v[m].score {
                m = j;
            }
        }
        let a = v[i];
        let b = v[m];
        proof {
            lemma_swap_multiset(v@, i as int, m as int);
        }
        v.set(i, b);
        v.set(m, a);
    }
    proof {
        broadcast use vstd::seq_lib::group_to_multiset_ensures;

        assert forall|i: int| 0 <= i < v@.len() implies old(v)@.contains(#[trigger] v@[i]) by {
            assert(v@.contains(v@[i]));
            assert(v@.to_multiset().count(v@[i]) > 0);
            assert(old(v)@.to_multiset().count(v@[i]) > 0);
        }
        assert forall|i: int| 0 <= i < old(v)@.len() implies v@.contains(#[trigger] old(v)@[i]) by {
            assert(old(v)@.contains(old(v)@[i]));
            assert(old(v)@.to_multiset().count(old(v)@[i]) > 0);
            assert(v@.to_multiset().count(old(v)@[i]) > 0);
        }
    }
}

/// When the transposition table names a best move and it stands in the
/// list, sorting by descending key puts it first: its key is the unique
/// maximal key, since every other move scores at most 9000.
pub proof fn lemma_tt_move_first(
    l: Seq<ScoredMove>,
    s: Seq<SquareContent>,
    white_to_move: bool,
    ep_file: Option<u8>,
    t: Mv,
    phase: int,
    w: int,
)
    requires
        squares_wf(s),
        0 <= phase <= 24,
        sorted_desc(l),
        forall|i: int| 0 <= i < l.len() ==> (#[trigger] l[i]).mv.wf(),
        forall|i: int|
            0 <= i < l.len() ==> (#[trigger] l[i]).score == spec_order_key(
                s,
                white_to_move,
                ep_file,
                l[i].mv,
                Some(t),
                phase,
            ),
        0 <= w < l.len(),
        l[w].mv == t,
    ensures
        l[0].mv == t,
{
    lemma_order_key_range(s, white_to_move, ep_file, l[w].mv, Some(t), phase);
    assert(l[w].score == TT_MOVE_KEY as int);
    assert(l[0].score >= l[w].score);
    if l[0].mv != t {
        lemma_order_key_range(s, white_to_move, ep_file, l[0].mv, Some(t), phase);
        assert(l[0].score <= 9000);
        assert(false);
    }
}

} // verus!
