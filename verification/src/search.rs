//! The search engine: negamax alpha-beta search with transposition-table
//! pruning, repetition detection, move ordering, quiescence over
//! captures, and the iterative-deepening driver with aspiration windows.
use vstd::prelude::*;

use crate::eval::{calculate_game_phase, spec_eval, static_evaluate};
use crate::model::{Mv, Pos, SquareContent};
use crate::ordering::{order_moves, sort_moves, spec_is_ep_shape, spec_order_key, ScoredMove};
use crate::repetition::{is_rep, is_repetition};
use crate::rules::{
    board_hash, board_legal_moves, board_play, board_squares, hash_of, in_check_of,
    legal_moves_of, play_of, read_position, side_white_of,
};
use crate::tables::MAX_PHASE;
use crate::tt::{empty_entry, spec_slot, Tt, TtEntry, TtFlags, SCORE_BOUND};

verus! {

/// The search window's notion of infinity: far above any reachable score,
/// far below `i32` overflow under negation.
pub const INF: i32 = 1_000_000_000;

/// The base of the checkmate score; the remaining depth is added so that
/// nearer mates score higher.
pub const MATE_SCORE: i32 = 9_999_999;

/// Half-width of the aspiration window seeded from the previous
/// iteration's score.
pub const ASPIRATION_DELTA: i32 = 25;

/// The default transposition table size, in entries.
pub const DEFAULT_TT_SIZE: u64 = 1_048_576;

/// A stored move, if any, is on the board.
pub open spec fn opt_mv_wf(m: Option<Mv>) -> bool {
    match m {
        Some(mv) => mv.wf(),
        None => true,
    }
}

/// The pre-promotion rank (0-indexed) of the side to move: rank 6 for
/// White, rank 1 for Black.
pub open spec fn promo_rank(white_to_move: bool) -> int {
    if white_to_move {
        6
    } else {
        1
    }
}

/// Whether the side to move has a pawn on its pre-promotion rank.
pub open spec fn has_promo_rank_pawn(s: Seq<SquareContent>, white_to_move: bool) -> bool {
    exists|f: int|
        0 <= f < 8 && #[trigger] s[8 * promo_rank(white_to_move) + f] == Some((white_to_move, 0u8))
}

/// Whether quiescence may prune on the delta guard: only when no pawn of
/// the side to move stands one step from promotion, and even a gain of
/// 1100 centipawns over the standing evaluation would stay below alpha.
pub open spec fn spec_delta_prune(
    s: Seq<SquareContent>,
    white_to_move: bool,
    stand_pat: int,
    alpha: int,
) -> bool {
    !has_promo_rank_pawn(s, white_to_move) && stand_pat + 1100 < alpha
}

/// The delta-prune path is never taken when the side to move has a pawn
/// on its pre-promotion rank.
pub proof fn lemma_delta_guard_inactive(
    s: Seq<SquareContent>,
    white_to_move: bool,
    stand_pat: int,
    alpha: int,
)
    requires
        has_promo_rank_pawn(s, white_to_move),
    ensures
        !spec_delta_prune(s, white_to_move, stand_pat, alpha),
{
}

/// Decide the delta-prune guard for a position and window.
pub fn delta_prune_allowed(p: &Pos, stand_pat: i32, alpha: i32) -> (r: bool)
    requires
        p.wf(),
        -100_000 <= stand_pat <= 100_000,
    ensures
        r == spec_delta_prune(p.squares@, p.white_to_move, stand_pat as int, alpha as int),
{
    let rank: u8 = if p.white_to_move {
        6
    } else {
        1
    };
    let mut found = false;
    for f in 0..8u8
        invariant
            p.wf(),
            rank as int == promo_rank(p.white_to_move),
            found == exists|k: int|
                0 <= k < f as int && #[trigger] p.squares@[8 * promo_rank(p.white_to_move) + k]
                    == Some((p.white_to_move, 0u8)),
    {
        let idx = (8 * rank + f) as usize;
        let hit = match p.squares[idx] {
            Some(c) => c.0 == p.white_to_move && c.1 == 0,
            None => false,
        };
        found = found || hit;
    }
    !found && stand_pat + 1100 < alpha
}

/// Whether a move is a capture worth extending in quiescence: it takes an
/// opponent piece, or it has the en-passant shape.
pub open spec fn spec_is_capture(
    s: Seq<SquareContent>,
    white_to_move: bool,
    ep_file: Option<u8>,
    mv: Mv,
) -> bool {
    match s[mv.to as int] {
        Some(v) => v.0 != white_to_move,
        None => spec_is_ep_shape(s, white_to_move, ep_file, mv),
    }
}

/// The capture test of a position, as a function on moves.
pub open spec fn capture_pred(s: Seq<SquareContent>, white_to_move: bool, ep_file: Option<u8>) -> spec_fn(Mv) -> bool {
    |m: Mv| spec_is_capture(s, white_to_move, ep_file, m)
}

/// The move of a scored move, as a function.
pub open spec fn scored_move_mv() -> spec_fn(ScoredMove) -> Mv {
    |sm: ScoredMove| sm.mv
}

/// Keep the captures of a move list, each scored by the move orderer
/// (with no table move), in their original order.
fn gather_captures(p: &Pos, moves: &Vec<Mv>, phase: i32) -> (r: Vec<ScoredMove>)
    requires
        p.wf(),
        0 <= phase <= MAX_PHASE,
        forall|i: int| 0 <= i < moves@.len() ==> (#[trigger] moves@[i]).wf(),
    ensures
        r@.map_values(scored_move_mv()) == moves@.filter(
            capture_pred(p.squares@, p.white_to_move, p.ep_file),
        ),
        forall|i: int|
            0 <= i < r@.len() ==> (#[trigger] r@[i]).mv.wf() && r@[i].score == spec_order_key(
                p.squares@,
                p.white_to_move,
                p.ep_file,
                r@[i].mv,
                None::<Mv>,
                phase as int,
            ),
        forall|i: int| 0 <= i < r@.len() ==> moves@.contains((#[trigger] r@[i]).mv),
{
    let ghost pred = capture_pred(p.squares@, p.white_to_move, p.ep_file);
    let ghost f = scored_move_mv();
    let mut out: Vec<ScoredMove> = Vec::new();
    let n = moves.len();
    #[verifier::loop_isolation(false)]
    for i in 0..n
        invariant
            out@.map_values(f) == moves@.take(i as int).filter(pred),
            forall|k: int| 0 <= k < out@.len() ==> moves@.contains((#[trigger] out@[k]).mv),
            forall|k: int|
                0 <= k < out@.len() ==> (#[trigger] out@[k]).mv.wf() && out@[k].score
                    == spec_order_key(
                    p.squares@,
                    p.white_to_move,
                    p.ep_file,
                    out@[k].mv,
                    None::<Mv>,
                    phase as int,
                ),
    {
        let mv = moves[i];
        let is_cap = match p.squares[mv.to as usize] {
            Some(v) => v.0 != p.white_to_move,
            None => {
                match p.ep_file {
                    Some(fl) => {
                        let ep_rank: u8 = if p.white_to_move {
                            5
                        } else {
                            2
                        };
                        let is_pawn = match p.squares[mv.from as usize] {
                            Some(a) => a.1 == 0,
                            None => false,
                        };
                        mv.to == 8 * ep_rank + fl && is_pawn
                    },
                    None => false,
                }
            },
        };
        let ghost prev = out@;
        if is_cap {
            out.push(ScoredMove { mv, score: order_moves(p, mv, None, phase) });
        }
        proof {
            reveal(Seq::filter);
            let t1 = moves@.take(i as int + 1);
            let t0 = moves@.take(i as int);
            assert(t1.drop_last() =~= t0);
            assert(t1.last() == mv);
            assert(is_cap == spec_is_capture(p.squares@, p.white_to_move, p.ep_file, mv));
            assert(pred(mv) == spec_is_capture(p.squares@, p.white_to_move, p.ep_file, mv));
            if is_cap {
                assert(t1.filter(pred) =~= t0.filter(pred).push(mv));
                assert(out@.map_values(f) =~= prev.map_values(f).push(mv));
            } else {
                assert(t1.filter(pred) =~= t0.filter(pred));
            }
        }
    }
    proof {
        assert(moves@.take(n as int) =~= moves@);
    }
    out
}

/// Whether a node exits at once as a repetition: the search path is
/// non-empty and the key already occurred twice across the game history
/// and the path.
pub open spec fn rep_exit(history: Seq<u64>, path: Seq<u64>, key: u64) -> bool {
    path.len() > 0 && is_rep(history, path, key)
}

/// The full-window negamax value of a position, defined over the named
/// board queries exactly as the search computes with the table off: a
/// repeated position scores zero; the horizon scores the static
/// evaluation; with no legal move, check scores a depth-adjusted mate
/// and stalemate zero; otherwise the best negated child value, one ply
/// shallower, with the node's key pushed onto the path.
pub open spec fn node_value(
    b: cozy_chess::Board,
    depth: int,
    history: Seq<u64>,
    path: Seq<u64>,
) -> int
    decreases depth, 1int, 0int,
{
    if rep_exit(history, path, hash_of(b)) {
        0
    } else if depth <= 0 {
        spec_eval(board_squares(b), side_white_of(b))
    } else if legal_moves_of(b).len() == 0 {
        if in_check_of(b) {
            -(MATE_SCORE as int + depth)
        } else {
            0
        }
    } else {
        children_best(b, 0, depth, history, path)
    }
}

/// The best value among the node's children from index `i` on (a value
/// below every reachable score when no child is left).
pub open spec fn children_best(
    b: cozy_chess::Board,
    i: int,
    depth: int,
    history: Seq<u64>,
    path: Seq<u64>,
) -> int
    decreases depth, 0int, legal_moves_of(b).len() - i,
{
    if depth < 1 || i < 0 || i >= legal_moves_of(b).len() {
        -(2 * INF as int)
    } else {
        let v = -node_value(
            play_of(b, legal_moves_of(b)[i]),
            depth - 1,
            history,
            path.push(hash_of(b)),
        );
        let rest = children_best(b, i + 1, depth, history, path);
        if v > rest {
            v
        } else {
            rest
        }
    }
}

/// The value one move contributes at a node: the negated value of the
/// position it leads to, one ply shallower, with the node's key pushed
/// onto the path.
pub open spec fn spec_mv_value(
    b: cozy_chess::Board,
    mv: Mv,
    depth: int,
    history: Seq<u64>,
    path: Seq<u64>,
) -> int {
    -node_value(play_of(b, mv), depth - 1, history, path.push(hash_of(b)))
}

/// Each child's contribution bounds the best child value from below.
proof fn lemma_children_best_ge(
    b: cozy_chess::Board,
    j: int,
    i: int,
    depth: int,
    history: Seq<u64>,
    path: Seq<u64>,
)
    requires
        depth >= 1,
        0 <= i <= j < legal_moves_of(b).len(),
    ensures
        children_best(b, i, depth, history, path) >= spec_mv_value(
            b,
            legal_moves_of(b)[j],
            depth,
            history,
            path,
        ),
    decreases j - i,
{
    if i < j {
        lemma_children_best_ge(b, j, i + 1, depth, history, path);
    }
}

/// A bound on every child's contribution bounds the best child value
/// from above.
proof fn lemma_children_best_le(
    b: cozy_chess::Board,
    i: int,
    depth: int,
    history: Seq<u64>,
    path: Seq<u64>,
    bound: int,
)
    requires
        depth >= 1,
        0 <= i <= legal_moves_of(b).len(),
        bound >= -(2 * INF as int),
        forall|j: int|
            i <= j < legal_moves_of(b).len() ==> #[trigger] spec_mv_value(
                b,
                legal_moves_of(b)[j],
                depth,
                history,
                path,
            ) <= bound,
    ensures
        children_best(b, i, depth, history, path) <= bound,
    decreases legal_moves_of(b).len() - i,
{
    if i < legal_moves_of(b).len() {
        assert(spec_mv_value(b, legal_moves_of(b)[i], depth, history, path) <= bound);
        lemma_children_best_le(b, i + 1, depth, history, path, bound);
    }
}

/// Whether a probed table entry ends a search node at once: its full key
/// matches, it is deep enough, and it either carries an exact score or a
/// bound that closes the window after raising alpha (a lower bound) or
/// lowering beta (an upper bound) as its flag directs.
pub open spec fn tt_hit_returns(e: TtEntry, key: u64, depth: i8, alpha: int, beta: int) -> bool {
    &&& e.key == key
    &&& e.depth >= depth
    &&& (e.flag == TtFlags::EXACT || ({
        let a2 = if e.flag == TtFlags::LOWER && e.score > alpha {
            e.score as int
        } else {
            alpha
        };
        let b2 = if e.flag == TtFlags::UPPER && e.score < beta {
            e.score as int
        } else {
            beta
        };
        a2 >= b2
    }))
}

/// Whether a move stands in a move list.
fn move_in_list(list: &Vec<Mv>, mv: Mv) -> (r: bool)
    ensures
        r == list@.contains(mv),
{
    let n = list.len();
    for i in 0..n
        invariant
            n as int == list@.len(),
            forall|j: int| 0 <= j < i as int ==> list@[j] != mv,
    {
        if list[i] == mv {
            return true;
        }
    }
    false
}

/// The engine: the process-wide transposition table, and a switch that
/// turns table probes and stores off for comparison runs.
pub struct Engine {
    pub transposition_table: Tt,
    pub tt_enabled: bool,
}

impl Engine {
    /// The engine is well-formed when its table is.
    pub open spec fn wf(&self) -> bool {
        self.transposition_table.wf()
    }

    /// The table entry that a key maps to.
    pub open spec fn slot(self, key: u64) -> TtEntry {
        self.transposition_table.table@[spec_slot(self.transposition_table.mask, key)]
    }

    /// Build an engine with the default-size transposition table, all
    /// slots empty.
    pub fn new() -> (r: Engine)
        ensures
            r.wf(),
            r.tt_enabled,
            r.transposition_table.mask == DEFAULT_TT_SIZE - 1,
            forall|i: int|
                0 <= i < r.transposition_table.table@.len() ==> #[trigger] r.transposition_table.table@[i] == empty_entry(),
    {
        proof {
            assert(DEFAULT_TT_SIZE & (DEFAULT_TT_SIZE - 1) as u64 == 0) by (bit_vector);
        }
        Engine { transposition_table: Tt::new(DEFAULT_TT_SIZE), tt_enabled: true }
    }

    /// Build an engine whose transposition table can be switched off, so
    /// that searches with and without the table can be compared.
    pub fn with_tt_enabled(tt_enabled: bool) -> (r: Engine)
        ensures
            r.wf(),
            r.tt_enabled == tt_enabled,
            r.transposition_table.mask == DEFAULT_TT_SIZE - 1,
            forall|i: int|
                0 <= i < r.transposition_table.table@.len() ==> #[trigger] r.transposition_table.table@[i] == empty_entry(),
    {
        proof {
            assert(DEFAULT_TT_SIZE & (DEFAULT_TT_SIZE - 1) as u64 == 0) by (bit_vector);
        }
        Engine { transposition_table: Tt::new(DEFAULT_TT_SIZE), tt_enabled }
    }

    /// Resolve capture sequences beyond the horizon: fail-hard quiescence
    /// search. The result always lies within the given window; a standing
    /// evaluation at or above beta fails high at once; the standing
    /// evaluation (capped at beta) is a floor on the result; and when the
    /// delta-prune guard fires, alpha is returned unchanged. `fuel`
    /// bounds the capture-chain recursion; capture chains exhaust the
    /// board's material long before any reasonable fuel, but at fuel 0
    /// the pending captures are left unexplored and the raised alpha is
    /// returned as it stands.
    pub fn quiescence_search(&self, board: &cozy_chess::Board, alpha: i32, beta: i32, fuel: u32) -> (r:
        i32)
        requires
            -INF <= alpha <= INF,
            -INF <= beta <= INF,
            alpha <= beta,
        ensures
            alpha <= r <= beta,
            ({
                let ev = spec_eval(board_squares(*board), side_white_of(*board));
                &&& (ev >= beta ==> r == beta)
                &&& r >= (if ev < beta {
                    ev
                } else {
                    beta as int
                })
                &&& ((ev < beta && spec_delta_prune(
                    board_squares(*board),
                    side_white_of(*board),
                    ev,
                    alpha as int,
                )) ==> r == alpha)
            }),
        decreases fuel,
    {
        let pos = read_position(board);
        let stand_pat = static_evaluate(&pos);
        let ghost ev = spec_eval(board_squares(*board), side_white_of(*board));
        proof {
            assert(stand_pat as int == ev);
        }
        if stand_pat >= beta {
            return beta;
        }
        let mut alpha = alpha;
        if delta_prune_allowed(&pos, stand_pat, alpha) {
            return alpha;
        }
        if stand_pat > alpha {
            alpha = stand_pat;
        }
        if fuel == 0 {
            return alpha;
        }
        let phase = calculate_game_phase(&pos);
        let raw_moves = board_legal_moves(board);
        let mut captures = gather_captures(&pos, &raw_moves, phase);
        let ghost presort = captures@;
        sort_moves(&mut captures);
        proof {
            assert forall|k: int| 0 <= k < captures@.len() implies (#[trigger] captures@[k]).mv.wf() by {
                let x = captures@[k];
                let j = choose|j: int| 0 <= j < presort.len() && presort[j] == x;
            }
        }
        let ghost alpha0 = alpha as int;
        let n = captures.len();
        #[verifier::loop_isolation(false)]
        for i in 0..n
            invariant
                forall|k: int| 0 <= k < captures@.len() ==> (#[trigger] captures@[k]).mv.wf(),
                alpha0 <= alpha as int,
                ev <= alpha as int,
                -INF <= alpha <= INF,
                alpha <= beta,
        {
            let sm = captures[i];
            match board_play(board, sm.mv) {
                Some(child) => {
                    let cs = self.quiescence_search(&child, -beta, -alpha, fuel - 1);
                    let score = -cs;
                    if score >= beta {
                        return beta;
                    }
                    if score > alpha {
                        alpha = score;
                    }
                },
                None => {},
            }
        }
        alpha
    }

    /// One negamax node, with the position's hash already computed. See
    /// `search` for the same contract stated over the named hash of the
    /// board; the clauses here speak of the given key directly.
    pub fn search_at(
        &mut self,
        board: &cozy_chess::Board,
        key: u64,
        depth: i8,
        alpha: i32,
        beta: i32,
        history: &Vec<u64>,
        path: &mut Vec<u64>,
    ) -> (r: (Option<Mv>, i32))
        requires
            old(self).wf(),
            key == hash_of(*board),
            -INF <= alpha <= INF,
            -INF <= beta <= INF,
        ensures
            final(self).wf(),
            final(self).tt_enabled == old(self).tt_enabled,
            final(self).transposition_table.mask == old(self).transposition_table.mask,
            !old(self).tt_enabled ==> final(self).transposition_table.table@ == old(
                self,
            ).transposition_table.table@,
            final(path)@ == old(path)@,
            -SCORE_BOUND <= r.1 <= SCORE_BOUND,
            opt_mv_wf(r.0),
            rep_exit(history@, old(path)@, key) ==> r == (None::<Mv>, 0i32),
            (r.0 is Some && !(old(self).tt_enabled && tt_hit_returns(
                old(self).slot(key),
                key,
                depth,
                alpha as int,
                beta as int,
            ))) ==> legal_moves_of(*board).contains(r.0->Some_0),
            r.0 is None ==> final(self).transposition_table.table@ == old(
                self,
            ).transposition_table.table@,
            ({
                let e = old(self).slot(key);
                (!rep_exit(history@, old(path)@, key) && old(self).tt_enabled && tt_hit_returns(
                    e,
                    key,
                    depth,
                    alpha as int,
                    beta as int,
                )) ==> (r == (e.best_move, e.score) && final(self).transposition_table.table@ == old(
                    self,
                ).transposition_table.table@)
            }),
            ({
                let e = old(self).slot(key);
                (!rep_exit(history@, old(path)@, key) && !(old(self).tt_enabled && tt_hit_returns(
                    e,
                    key,
                    depth,
                    alpha as int,
                    beta as int,
                )) && depth <= 0) ==> (r.0 is None && r.1 == spec_eval(
                    board_squares(*board),
                    side_white_of(*board),
                ))
            }),
            ({
                let e = old(self).slot(key);
                (!rep_exit(history@, old(path)@, key) && !(old(self).tt_enabled && tt_hit_returns(
                    e,
                    key,
                    depth,
                    alpha as int,
                    beta as int,
                )) && depth >= 1 && legal_moves_of(*board).len() > 0) ==> r.0 is Some
            }),
            ({
                let e = old(self).slot(key);
                (!rep_exit(history@, old(path)@, key) && !(old(self).tt_enabled && tt_hit_returns(
                    e,
                    key,
                    depth,
                    alpha as int,
                    beta as int,
                )) && depth >= 1 && legal_moves_of(*board).len() == 0) ==> (r.0 is None
                    && r.1 as int == (if in_check_of(*board) {
                    -(MATE_SCORE as int + depth as int)
                } else {
                    0int
                }))
            }),
            ({
                let e = old(self).slot(key);
                (!rep_exit(history@, old(path)@, key) && old(self).tt_enabled && !(e.key == key
                    && e.depth >= depth) && depth >= 1 && alpha < beta && r.0 is Some)
                    ==> final(self).slot(key) == (TtEntry {
                    key,
                    score: r.1,
                    depth,
                    flag: (if r.1 >= beta {
                        TtFlags::LOWER
                    } else if r.1 > alpha {
                        TtFlags::EXACT
                    } else {
                        TtFlags::UPPER
                    }),
                    best_move: r.0,
                })
            }),
            !old(self).tt_enabled ==> -(MATE_SCORE as int + (if depth > 0 {
                depth as int
            } else {
                0int
            })) <= r.1 <= MATE_SCORE as int + (if depth > 0 {
                depth as int
            } else {
                0int
            }),
            (!old(self).tt_enabled && alpha < beta) ==> ({
                let t = node_value(*board, depth as int, history@, old(path)@);
                &&& (alpha < r.1 < beta ==> r.1 == t)
                &&& (r.1 <= alpha ==> t <= r.1)
                &&& (r.1 >= beta ==> t >= r.1)
                &&& ((alpha < r.1 < beta && r.0 is Some) ==> spec_mv_value(
                    *board,
                    r.0->Some_0,
                    depth as int,
                    history@,
                    old(path)@,
                ) == r.1)
            }),
        decreases depth,
    {
        if is_repetition(history, path, key) && path.len() > 0 {
            return (None, 0);
        }
        let mut alpha = alpha;
        let mut beta = beta;
        let mut tt_best: Option<Mv> = None;
        if self.tt_enabled {
            match self.transposition_table.probe(key, depth) {
                Some(entry) => {
                    if entry.flag == TtFlags::EXACT {
                        return (entry.best_move, entry.score);
                    } else if entry.flag == TtFlags::LOWER && entry.score > alpha {
                        alpha = entry.score;
                    } else if entry.flag == TtFlags::UPPER && entry.score < beta {
                        beta = entry.score;
                    }
                    if alpha >= beta {
                        return (entry.best_move, entry.score);
                    }
                },
                None => {},
            }
            match self.transposition_table.probe(key, 0) {
                Some(entry) => {
                    tt_best = entry.best_move;
                },
                None => {},
            }
        }
        if depth <= 0 {
            let pos = read_position(board);
            return (None, static_evaluate(&pos));
        }
        let pos = read_position(board);
        let phase = calculate_game_phase(&pos);
        let raw_moves = board_legal_moves(board);
        let mut legal_moves: Vec<ScoredMove> = Vec::new();
        let n_raw = raw_moves.len();
        for i in 0..n_raw
            invariant
                n_raw as int == raw_moves@.len(),
                raw_moves@ == legal_moves_of(*board),
                pos.wf(),
                0 <= phase <= MAX_PHASE,
                forall|k: int| 0 <= k < raw_moves@.len() ==> (#[trigger] raw_moves@[k]).wf(),
                legal_moves@.len() == i as int,
                forall|k: int|
                    0 <= k < legal_moves@.len() ==> (#[trigger] legal_moves@[k]).mv
                        == raw_moves@[k],
                forall|k: int| 0 <= k < legal_moves@.len() ==> (#[trigger] legal_moves@[k]).mv.wf(),
        {
            let mv = raw_moves[i];
            legal_moves.push(ScoredMove { mv, score: order_moves(&pos, mv, tt_best, phase) });
        }
        if legal_moves.len() == 0 {
            if !pos.in_check {
                return (None, 0);
            }
            let checkmate_score = MATE_SCORE + depth as i32;
            return (None, -checkmate_score);
        }
        let ghost presort = legal_moves@;
        sort_moves(&mut legal_moves);
        proof {
            assert forall|k: int| 0 <= k < legal_moves@.len() implies ((
            #[trigger] legal_moves@[k]).mv.wf() && legal_moves_of(*board).contains(
                legal_moves@[k].mv,
            )) by {
                let x = legal_moves@[k];
                let j = choose|j: int| 0 <= j < presort.len() && presort[j] == x;
                assert(presort[j].mv == raw_moves@[j]);
                assert(legal_moves_of(*board)[j] == x.mv);
            }
        }
        let mut best_move: Option<Mv> = None;
        let mut best_score: i32 = i32::MIN;
        let mut cutoff = false;
        let original_alpha = alpha;
        path.push(key);
        let n_moves = legal_moves.len();
        let mut idx: usize = 0;
        while idx < n_moves && !cutoff
            invariant
                0 < depth,
                key == hash_of(*board),
                n_moves as int == legal_moves@.len(),
                n_moves >= 1,
                forall|k: int|
                    0 <= k < legal_moves@.len() ==> ((#[trigger] legal_moves@[k]).mv.wf()
                        && legal_moves_of(*board).contains(legal_moves@[k].mv)),
                self.wf(),
                self.tt_enabled == old(self).tt_enabled,
                self.transposition_table.mask == old(self).transposition_table.mask,
                path@ == old(path)@.push(key),
                -INF <= original_alpha <= INF,
                -INF <= beta <= INF,
                alpha as int == (if best_score as int > original_alpha as int {
                    best_score as int
                } else {
                    original_alpha as int
                }),
                best_move is None ==> (best_score == i32::MIN && !cutoff && idx == 0),
                best_move matches Some(m) ==> (m.wf() && -SCORE_BOUND <= best_score <= SCORE_BOUND
                    && legal_moves_of(*board).contains(m)),
                cutoff ==> best_move is Some,
                original_alpha < beta ==> (cutoff ==> best_score >= beta),
                original_alpha < beta ==> (!cutoff ==> alpha < beta),
                (cutoff && old(self).tt_enabled) ==> self.slot(key) == (TtEntry {
                    key,
                    score: best_score,
                    depth,
                    flag: TtFlags::LOWER,
                    best_move,
                }),
                !old(self).tt_enabled ==> self.transposition_table.table@ == old(
                    self,
                ).transposition_table.table@,
                (!old(self).tt_enabled && best_move matches Some(m)) ==> (-(MATE_SCORE as int
                    + depth as int - 1) <= best_score as int <= MATE_SCORE as int + depth as int
                    - 1),
                (!old(self).tt_enabled && original_alpha < beta && !cutoff) ==> (forall|i: int|
                    0 <= i < idx as int ==> spec_mv_value(
                        *board,
                        (#[trigger] legal_moves@[i]).mv,
                        depth as int,
                        history@,
                        old(path)@,
                    ) <= best_score as int),
                (!old(self).tt_enabled && original_alpha < beta && !cutoff
                    && best_score as int > original_alpha as int) ==> (best_move is Some
                    && spec_mv_value(
                    *board,
                    best_move->Some_0,
                    depth as int,
                    history@,
                    old(path)@,
                ) == best_score as int),
                (!old(self).tt_enabled && original_alpha < beta && cutoff) ==> (best_move is Some
                    && spec_mv_value(
                    *board,
                    best_move->Some_0,
                    depth as int,
                    history@,
                    old(path)@,
                ) >= best_score as int),
            decreases n_moves - idx,
        {
            let sm = legal_moves[idx];
            let child_opt = board_play(board, sm.mv);
            let child = child_opt.unwrap();
            let ck = board_hash(&child);
            let (_, cs) = self.search_at(&child, ck, depth - 1, -beta, -alpha, history, path);
            let score = -cs;
            proof {
                if !old(self).tt_enabled && original_alpha < beta {
                    assert(child == play_of(*board, sm.mv));
                    assert(spec_mv_value(*board, sm.mv, depth as int, history@, old(path)@)
                        == -node_value(child, depth as int - 1, history@, old(path)@.push(key)));
                }
            }
            if score > best_score {
                best_score = score;
                best_move = Some(sm.mv);
            }
            if score > alpha {
                alpha = score;
            }
            if alpha >= beta {
                cutoff = true;
                if self.tt_enabled {
                    self.transposition_table.store(key, depth, best_score, TtFlags::LOWER, best_move);
                }
            }
            idx = idx + 1;
        }
        path.pop();
        proof {
            assert(path@ =~= old(path)@);
        }
        match best_move {
            Some(m) => {
                if !cutoff && self.tt_enabled {
                    self.transposition_table.store(
                        key,
                        depth,
                        best_score,
                        if alpha > original_alpha {
                            TtFlags::EXACT
                        } else {
                            TtFlags::UPPER
                        },
                        best_move,
                    );
                }
                proof {
                    if !old(self).tt_enabled && original_alpha < beta {
                        let gl = legal_moves_of(*board);
                        assert(gl.contains(m));
                        let j = choose|j: int| 0 <= j < gl.len() && gl[j] == m;
                        lemma_children_best_ge(*board, j, 0, depth as int, history@, old(path)@);
                        if !cutoff {
                            assert forall|j2: int| 0 <= j2 < gl.len() implies #[trigger] spec_mv_value(
                                *board,
                                gl[j2],
                                depth as int,
                                history@,
                                old(path)@,
                            ) <= best_score as int by {
                                assert(presort[j2].mv == gl[j2]);
                                assert(legal_moves@.contains(presort[j2]));
                                let i2 = choose|i2: int|
                                    0 <= i2 < legal_moves@.len() && legal_moves@[i2] == presort[j2];
                                assert(spec_mv_value(
                                    *board,
                                    legal_moves@[i2].mv,
                                    depth as int,
                                    history@,
                                    old(path)@,
                                ) <= best_score as int);
                            };
                            lemma_children_best_le(
                                *board,
                                0,
                                depth as int,
                                history@,
                                old(path)@,
                                best_score as int,
                            );
                        }
                        assert(node_value(*board, depth as int, history@, old(path)@)
                            == children_best(*board, 0, depth as int, history@, old(path)@));
                    }
                }
                (Some(m), best_score)
            },
            None => {
                // Provably unreachable: the list is non-empty and every
                // generated move plays, so the first iteration picks a move.
                proof {
                    assert(false);
                }
                (None, 0)
            },
        }
    }

    /// Negamax alpha-beta search. Returns the best move found (none at
    /// horizon, repetition and terminal nodes) and the node's score from
    /// the side-to-move perspective. A position already on the search
    /// path or seen twice before scores zero; a table hit that closes the
    /// window is returned as stored; at the horizon the static evaluation
    /// is returned; when the position has legal moves and no table hit
    /// ends the node, a legal move is returned, and on a clean table miss
    /// the node's slot afterwards holds the fail-soft score with the flag
    /// its window position dictates. With the table off the score obeys
    /// the fail-soft window law against the position's negamax value
    /// `node_value`: exact strictly inside the window, an upper bound at
    /// or below alpha, a lower bound at or above beta — so a full-window
    /// search returns the negamax value itself, achieved by the returned
    /// move.
    pub fn search(
        &mut self,
        board: &cozy_chess::Board,
        depth: i8,
        alpha: i32,
        beta: i32,
        history: &Vec<u64>,
        path: &mut Vec<u64>,
    ) -> (r: (Option<Mv>, i32))
        requires
            old(self).wf(),
            -INF <= alpha <= INF,
            -INF <= beta <= INF,
        ensures
            final(self).wf(),
            final(self).tt_enabled == old(self).tt_enabled,
            final(self).transposition_table.mask == old(self).transposition_table.mask,
            !old(self).tt_enabled ==> final(self).transposition_table.table@ == old(
                self,
            ).transposition_table.table@,
            final(path)@ == old(path)@,
            -SCORE_BOUND <= r.1 <= SCORE_BOUND,
            opt_mv_wf(r.0),
            rep_exit(history@, old(path)@, hash_of(*board)) ==> r == (None::<Mv>, 0i32),
            (r.0 is Some && !(old(self).tt_enabled && tt_hit_returns(
                old(self).slot(hash_of(*board)),
                hash_of(*board),
                depth,
                alpha as int,
                beta as int,
            ))) ==> legal_moves_of(*board).contains(r.0->Some_0),
            r.0 is None ==> final(self).transposition_table.table@ == old(
                self,
            ).transposition_table.table@,
            ({
                let e = old(self).slot(hash_of(*board));
                (!rep_exit(history@, old(path)@, hash_of(*board)) && old(self).tt_enabled
                    && tt_hit_returns(e, hash_of(*board), depth, alpha as int, beta as int)) ==> (r
                    == (e.best_move, e.score) && final(self).transposition_table.table@ == old(
                    self,
                ).transposition_table.table@)
            }),
            ({
                let e = old(self).slot(hash_of(*board));
                (!rep_exit(history@, old(path)@, hash_of(*board)) && !(old(self).tt_enabled
                    && tt_hit_returns(e, hash_of(*board), depth, alpha as int, beta as int))
                    && depth <= 0) ==> (r.0 is None && r.1 == spec_eval(
                    board_squares(*board),
                    side_white_of(*board),
                ))
            }),
            ({
                let e = old(self).slot(hash_of(*board));
                (!rep_exit(history@, old(path)@, hash_of(*board)) && !(old(self).tt_enabled
                    && tt_hit_returns(e, hash_of(*board), depth, alpha as int, beta as int))
                    && depth >= 1 && legal_moves_of(*board).len() > 0) ==> r.0 is Some
            }),
            ({
                let e = old(self).slot(hash_of(*board));
                (!rep_exit(history@, old(path)@, hash_of(*board)) && !(old(self).tt_enabled
                    && tt_hit_returns(e, hash_of(*board), depth, alpha as int, beta as int))
                    && depth >= 1 && legal_moves_of(*board).len() == 0) ==> (r.0 is None
                    && r.1 as int == (if in_check_of(*board) {
                    -(MATE_SCORE as int + depth as int)
                } else {
                    0int
                }))
            }),
            ({
                let e = old(self).slot(hash_of(*board));
                (!rep_exit(history@, old(path)@, hash_of(*board)) && old(self).tt_enabled && !(
                e.key == hash_of(*board) && e.depth >= depth) && depth >= 1 && alpha < beta && r.0
                    is Some) ==> final(self).slot(hash_of(*board)) == (TtEntry {
                    key: hash_of(*board),
                    score: r.1,
                    depth,
                    flag: (if r.1 >= beta {
                        TtFlags::LOWER
                    } else if r.1 > alpha {
                        TtFlags::EXACT
                    } else {
                        TtFlags::UPPER
                    }),
                    best_move: r.0,
                })
            }),
            !old(self).tt_enabled ==> -(MATE_SCORE as int + (if depth > 0 {
                depth as int
            } else {
                0int
            })) <= r.1 <= MATE_SCORE as int + (if depth > 0 {
                depth as int
            } else {
                0int
            }),
            (!old(self).tt_enabled && alpha < beta) ==> ({
                let t = node_value(*board, depth as int, history@, old(path)@);
                &&& (alpha < r.1 < beta ==> r.1 == t)
                &&& (r.1 <= alpha ==> t <= r.1)
                &&& (r.1 >= beta ==> t >= r.1)
                &&& ((alpha < r.1 < beta && r.0 is Some) ==> spec_mv_value(
                    *board,
                    r.0->Some_0,
                    depth as int,
                    history@,
                    old(path)@,
                ) == r.1)
            }),
    {
        let key = board_hash(board);
        self.search_at(board, key, depth, alpha, beta, history, path)
    }

    /// Score a position by a single full-window search at the given depth:
    /// a full-window table hit is returned as stored, at the horizon the
    /// static evaluation is returned, and with the table off the result
    /// is exactly the position's negamax value.
    pub fn evaluate_board(&mut self, board: &cozy_chess::Board, depth: i8, history: &Vec<u64>) -> (r:
        i32)
        requires
            old(self).wf(),
        ensures
            final(self).wf(),
            final(self).tt_enabled == old(self).tt_enabled,
            !old(self).tt_enabled ==> final(self).transposition_table.table@ == old(
                self,
            ).transposition_table.table@,
            -SCORE_BOUND <= r <= SCORE_BOUND,
            ({
                let e = old(self).slot(hash_of(*board));
                (old(self).tt_enabled && tt_hit_returns(
                    e,
                    hash_of(*board),
                    depth,
                    -INF as int,
                    INF as int,
                )) ==> r == e.score
            }),
            ({
                let e = old(self).slot(hash_of(*board));
                (!(old(self).tt_enabled && tt_hit_returns(
                    e,
                    hash_of(*board),
                    depth,
                    -INF as int,
                    INF as int,
                )) && depth <= 0) ==> r == spec_eval(board_squares(*board), side_white_of(*board))
            }),
            ({
                let e = old(self).slot(hash_of(*board));
                (!(old(self).tt_enabled && tt_hit_returns(
                    e,
                    hash_of(*board),
                    depth,
                    -INF as int,
                    INF as int,
                )) && depth >= 1 && legal_moves_of(*board).len() == 0) ==> r as int == (if in_check_of(*board) {
                    -(MATE_SCORE as int + depth as int)
                } else {
                    0int
                })
            }),
            !old(self).tt_enabled ==> r as int == node_value(
                *board,
                depth as int,
                history@,
                Seq::<u64>::empty(),
            ),
    {
        let mut path: Vec<u64> = Vec::new();
        let (_, score) = self.search(board, depth, -INF, INF, history, &mut path);
        score
    }

    /// Pick a move by a single full-window search at the given depth.
    /// A returned move is always legal for the board: the search's move
    /// is checked against the generated legal moves at the root, which
    /// discards a stored table move that belongs to another position.
    /// Nothing is returned when no legal move exists (the caller
    /// decides), when a table hit supplies a stored entry without a
    /// usable move, or at a non-positive depth.
    pub fn generate_move(&mut self, board: &cozy_chess::Board, depth: i8, history: &Vec<u64>) -> (r:
        Option<Mv>)
        requires
            old(self).wf(),
        ensures
            final(self).wf(),
            final(self).tt_enabled == old(self).tt_enabled,
            !old(self).tt_enabled ==> final(self).transposition_table.table@ == old(
                self,
            ).transposition_table.table@,
            opt_mv_wf(r),
            r is Some ==> legal_moves_of(*board).contains(r->Some_0),
            legal_moves_of(*board).len() == 0 ==> r is None,
            ({
                let e = old(self).slot(hash_of(*board));
                (!(old(self).tt_enabled && tt_hit_returns(
                    e,
                    hash_of(*board),
                    depth,
                    -INF as int,
                    INF as int,
                )) && depth >= 1 && legal_moves_of(*board).len() > 0) ==> r is Some
            }),
    {
        let mut path: Vec<u64> = Vec::new();
        let (best_move, _) = self.search(board, depth, -INF, INF, history, &mut path);
        match best_move {
            Some(m) => {
                let legal = board_legal_moves(board);
                if move_in_list(&legal, m) {
                    Some(m)
                } else {
                    None
                }
            },
            None => None,
        }
    }

    /// Iterative deepening with aspiration windows: search depths 1 up to
    /// `max_depth`, seeding each depth's window a quarter-pawn around the
    /// previous score and re-searching with a widened window on failure.
    /// Each depth widens at most twice, so the retry loop terminates.
    /// The searched best move is checked against the generated legal
    /// moves at the root (discarding a stored table move that belongs to
    /// another position); when the final iteration surfaces no usable
    /// move, the first legal move is played. So whenever a legal move
    /// exists a legal move is returned, and the synthetic null move comes
    /// back exactly when none does.
    pub fn evaluate_and_move(
        &mut self,
        board: &cozy_chess::Board,
        max_depth: i8,
        history: &Vec<u64>,
    ) -> (r: (Mv, i32))
        requires
            old(self).wf(),
            max_depth >= 1,
        ensures
            final(self).wf(),
            final(self).tt_enabled == old(self).tt_enabled,
            !old(self).tt_enabled ==> final(self).transposition_table.table@ == old(
                self,
            ).transposition_table.table@,
            r.0.wf(),
            -SCORE_BOUND <= r.1 <= SCORE_BOUND,
            legal_moves_of(*board).len() == 0 ==> r.0 == (Mv { from: 0, to: 0, promo: None }),
            legal_moves_of(*board).len() > 0 ==> legal_moves_of(*board).contains(r.0),
    {
        let mut best_move: Option<Mv> = None;
        let mut score: i32 = 0;
        let mut alpha: i32 = -INF;
        let mut beta: i32 = INF;
        let mut path: Vec<u64> = Vec::new();
        let mut d: i32 = 1;
        while d <= max_depth as i32
            invariant
                self.wf(),
                self.tt_enabled == old(self).tt_enabled,
                !old(self).tt_enabled ==> self.transposition_table.table@ == old(
                    self,
                ).transposition_table.table@,
                1 <= d <= max_depth as i32 + 1,
                -INF <= alpha <= INF,
                -INF <= beta <= INF,
                -SCORE_BOUND <= score <= SCORE_BOUND,
                opt_mv_wf(best_move),
            decreases max_depth as int + 1 - d as int,
        {
            loop
                invariant
                    self.wf(),
                    self.tt_enabled == old(self).tt_enabled,
                    !old(self).tt_enabled ==> self.transposition_table.table@ == old(
                        self,
                    ).transposition_table.table@,
                    1 <= d <= max_depth as i32,
                    -INF <= alpha <= INF,
                    -INF <= beta <= INF,
                    opt_mv_wf(best_move),
                    -SCORE_BOUND <= score <= SCORE_BOUND,
                ensures
                    self.wf(),
                    self.tt_enabled == old(self).tt_enabled,
                    !old(self).tt_enabled ==> self.transposition_table.table@ == old(
                        self,
                    ).transposition_table.table@,
                    opt_mv_wf(best_move),
                    -SCORE_BOUND <= score <= SCORE_BOUND,
                    -INF <= alpha <= INF,
                    -INF <= beta <= INF,
                decreases (if alpha > -INF {
                    1int
                } else {
                    0int
                }) + (if beta < INF {
                    1int
                } else {
                    0int
                }),
            {
                let (bm, s) = self.search(board, d as i8, alpha, beta, history, &mut path);
                best_move = bm;
                score = s;
                if s <= alpha {
                    alpha = -INF;
                } else if s >= beta {
                    beta = INF;
                } else {
                    alpha = score - ASPIRATION_DELTA;
                    beta = score + ASPIRATION_DELTA;
                    break;
                }
            }
            d = d + 1;
        }
        let legal = board_legal_moves(board);
        let searched_ok = match best_move {
            Some(m) => move_in_list(&legal, m),
            None => false,
        };
        if searched_ok {
            let m = best_move.unwrap();
            proof {
                assert(legal_moves_of(*board).contains(m));
            }
            (m, score)
        } else {
            // Fallback: the search surfaced no move, or a stored table
            // move that is not legal here; play the first legal move, or
            // the null move when the game is over.
            if legal.len() > 0 {
                proof {
                    assert(legal_moves_of(*board).contains(legal@[0]));
                }
                (legal[0], score)
            } else {
                (Mv::null(), score)
            }
        }
    }
}

} // verus!
