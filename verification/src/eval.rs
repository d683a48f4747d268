//! Tapered static evaluation: material plus piece-square bonuses, blended
//! between middlegame and endgame tables by the game phase, reported from
//! the side-to-move perspective.
use vstd::prelude::*;

use crate::model::{flip_sq, mirror_squares, squares_wf, swap_color, Pos, SquareContent};
use crate::tables::{
    lemma_table_bounds, EG_PIECE_VALUES, EG_PST, MAX_PHASE, MG_PIECE_VALUES, MG_PST, PHASE_WEIGHTS,
};

verus! {

/// Truncating integer division (toward zero), as Rust's `/` computes it.
pub open spec fn tdiv(a: int, b: int) -> int {
    if a >= 0 {
        a / b
    } else {
        -((-a) / b)
    }
}

/// What one square adds to a material + piece-square sum: White pieces
/// add their value and table bonus, Black pieces subtract theirs, with the
/// table read at the vertically mirrored square.
pub open spec fn piece_term(
    vals: [i32; 6],
    pst: [[i32; 64]; 6],
    c: SquareContent,
    sq: int,
) -> int {
    match c {
        Some(pc) => if pc.0 {
            vals@[pc.1 as int] + pst@[pc.1 as int]@[sq]
        } else {
            -(vals@[pc.1 as int] + pst@[pc.1 as int]@[flip_sq(sq)])
        },
        None => 0,
    }
}

/// Sum of `piece_term` over the first `k` files of rank `r`.
pub open spec fn file_sum(
    vals: [i32; 6],
    pst: [[i32; 64]; 6],
    s: Seq<SquareContent>,
    r: int,
    k: int,
) -> int
    decreases k,
{
    if k <= 0 {
        0
    } else {
        file_sum(vals, pst, s, r, k - 1) + piece_term(vals, pst, s[8 * r + (k - 1)], 8 * r + (k - 1))
    }
}

/// Sum of `piece_term` over the first `k` ranks of the board.
pub open spec fn rank_sum(
    vals: [i32; 6],
    pst: [[i32; 64]; 6],
    s: Seq<SquareContent>,
    k: int,
) -> int
    decreases k,
{
    if k <= 0 {
        0
    } else {
        rank_sum(vals, pst, s, k - 1) + file_sum(vals, pst, s, k - 1, 8)
    }
}

/// Middlegame score of the board, from White's point of view.
pub open spec fn mg_score(s: Seq<SquareContent>) -> int {
    rank_sum(MG_PIECE_VALUES, MG_PST, s, 8)
}

/// Endgame score of the board, from White's point of view.
pub open spec fn eg_score(s: Seq<SquareContent>) -> int {
    rank_sum(EG_PIECE_VALUES, EG_PST, s, 8)
}

/// Phase weight of one square's content, the same for either color.
pub open spec fn phase_term(c: SquareContent) -> int {
    match c {
        Some(pc) => PHASE_WEIGHTS@[pc.1 as int] as int,
        None => 0,
    }
}

/// Sum of `phase_term` over the first `k` files of rank `r`.
pub open spec fn phase_file_sum(s: Seq<SquareContent>, r: int, k: int) -> int
    decreases k,
{
    if k <= 0 {
        0
    } else {
        phase_file_sum(s, r, k - 1) + phase_term(s[8 * r + (k - 1)])
    }
}

/// Sum of `phase_term` over the first `k` ranks.
pub open spec fn phase_rank_sum(s: Seq<SquareContent>, k: int) -> int
    decreases k,
{
    if k <= 0 {
        0
    } else {
        phase_rank_sum(s, k - 1) + phase_file_sum(s, k - 1, 8)
    }
}

/// Total phase weight of all pieces on the board, before capping.
pub open spec fn phase_raw(s: Seq<SquareContent>) -> int {
    phase_rank_sum(s, 8)
}

/// The game phase: total phase weight, capped at `MAX_PHASE`.
pub open spec fn spec_phase(s: Seq<SquareContent>) -> int {
    if phase_raw(s) > 24 {
        24
    } else {
        phase_raw(s)
    }
}

/// Phase weights of real pieces are nonnegative, so every partial phase
/// sum over a well-formed board is too.
proof fn lemma_phase_file_sum_nonneg(s: Seq<SquareContent>, r: int, k: int)
    requires
        squares_wf(s),
        0 <= r < 8,
        0 <= k <= 8,
    ensures
        0 <= phase_file_sum(s, r, k) <= 4 * k,
    decreases k,
{
    if k > 0 {
        lemma_phase_file_sum_nonneg(s, r, k - 1);
        lemma_table_bounds();
        let i = 8 * r + (k - 1);
        assert(0 <= i < 64);
        assert(0 <= phase_term(s[i]) <= 4);
    }
}

/// Every partial rank sum of phase weights is nonnegative.
proof fn lemma_phase_rank_sum_nonneg(s: Seq<SquareContent>, k: int)
    requires
        squares_wf(s),
        0 <= k <= 8,
    ensures
        0 <= phase_rank_sum(s, k),
    decreases k,
{
    if k > 0 {
        lemma_phase_rank_sum_nonneg(s, k - 1);
        lemma_phase_file_sum_nonneg(s, k - 1, 8);
    }
}

/// Phase bounds: the game phase of any well-formed board lies between 0
/// and `MAX_PHASE`.
pub proof fn lemma_phase_bounds(s: Seq<SquareContent>)
    requires
        squares_wf(s),
    ensures
        0 <= spec_phase(s) <= MAX_PHASE,
{
    lemma_phase_rank_sum_nonneg(s, 8);
}

/// The tapered blend of the two scores, from White's point of view.
pub open spec fn spec_eval_white(s: Seq<SquareContent>) -> int {
    tdiv(mg_score(s) * spec_phase(s) + eg_score(s) * (24 - spec_phase(s)), 24)
}

/// The static evaluation: the blend, negated when Black is to move.
pub open spec fn spec_eval(s: Seq<SquareContent>, white_to_move: bool) -> int {
    if white_to_move {
        spec_eval_white(s)
    } else {
        -spec_eval_white(s)
    }
}

/// One square's term lies within plus or minus 950 on either table pair.
proof fn lemma_term_bound(c: SquareContent, sq: int)
    requires
        0 <= sq < 64,
        match c {
            Some(pc) => pc.1 < 6,
            None => true,
        },
    ensures
        -950 <= piece_term(MG_PIECE_VALUES, MG_PST, c, sq) <= 950,
        -950 <= piece_term(EG_PIECE_VALUES, EG_PST, c, sq) <= 950,
        0 <= phase_term(c) <= 4,
{
    lemma_table_bounds();
    crate::model::lemma_flip_involution(sq);
}

/// Compute the game phase of a position.
pub fn calculate_game_phase(p: &Pos) -> (r: i32)
    requires
        p.wf(),
    ensures
        r as int == spec_phase(p.squares@),
        0 <= r <= MAX_PHASE,
{
    let s = Ghost(p.squares@);
    let mut ph: i32 = 0;
    #[verifier::loop_isolation(false)]
    for rk in 0..8usize
        invariant
            ph as int == phase_rank_sum(s@, rk as int),
            0 <= ph as int <= 256 * rk as int,
    {
        #[verifier::loop_isolation(false)]
        for f in 0..8usize
            invariant
                ph as int == phase_rank_sum(s@, rk as int) + phase_file_sum(s@, rk as int, f as int),
                0 <= ph as int <= 256 * rk as int + 4 * f as int,
        {
            let sq = 8 * rk + f;
            proof {
                lemma_term_bound(s@[sq as int], sq as int);
            }
            match p.squares[sq] {
                Some(pc) => {
                    ph = ph + PHASE_WEIGHTS[pc.1 as usize];
                },
                None => {},
            }
        }
    }
    if ph > MAX_PHASE {
        MAX_PHASE
    } else {
        ph
    }
}

/// Compute the tapered static evaluation of a position, in centipawn-like
/// units from the side-to-move perspective.
pub fn static_evaluate(p: &Pos) -> (r: i32)
    requires
        p.wf(),
    ensures
        r as int == spec_eval(p.squares@, p.white_to_move),
        -60_800 <= r <= 60_800,
{
    let s = Ghost(p.squares@);
    let mut mg: i32 = 0;
    let mut eg: i32 = 0;
    let mut ph: i32 = 0;
    #[verifier::loop_isolation(false)]
    for rk in 0..8usize
        invariant
            mg as int == rank_sum(MG_PIECE_VALUES, MG_PST, s@, rk as int),
            eg as int == rank_sum(EG_PIECE_VALUES, EG_PST, s@, rk as int),
            ph as int == phase_rank_sum(s@, rk as int),
            -7600 * rk as int <= mg as int <= 7600 * rk as int,
            -7600 * rk as int <= eg as int <= 7600 * rk as int,
            0 <= ph as int <= 32 * rk as int,
    {
        #[verifier::loop_isolation(false)]
        for f in 0..8usize
            invariant
                mg as int == rank_sum(MG_PIECE_VALUES, MG_PST, s@, rk as int) + file_sum(
                    MG_PIECE_VALUES,
                    MG_PST,
                    s@,
                    rk as int,
                    f as int,
                ),
                eg as int == rank_sum(EG_PIECE_VALUES, EG_PST, s@, rk as int) + file_sum(
                    EG_PIECE_VALUES,
                    EG_PST,
                    s@,
                    rk as int,
                    f as int,
                ),
                ph as int == phase_rank_sum(s@, rk as int) + phase_file_sum(
                    s@,
                    rk as int,
                    f as int,
                ),
                -7600 * rk as int - 950 * f as int <= mg as int <= 7600 * rk as int + 950
                    * f as int,
                -7600 * rk as int - 950 * f as int <= eg as int <= 7600 * rk as int + 950
                    * f as int,
                0 <= ph as int <= 32 * rk as int + 4 * f as int,
        {
            let sq = 8 * rk + f;
            proof {
                lemma_term_bound(s@[sq as int], sq as int);
            }
            match p.squares[sq] {
                Some(pc) => {
                    let pi = pc.1 as usize;
                    if pc.0 {
                        mg = mg + (MG_PIECE_VALUES[pi] + MG_PST[pi][sq]);
                        eg = eg + (EG_PIECE_VALUES[pi] + EG_PST[pi][sq]);
                    } else {
                        let fsq = crate::model::flip_sq_x(sq as u8);
                        mg = mg - (MG_PIECE_VALUES[pi] + MG_PST[pi][fsq as usize]);
                        eg = eg - (EG_PIECE_VALUES[pi] + EG_PST[pi][fsq as usize]);
                    }
                    ph = ph + PHASE_WEIGHTS[pi];
                },
                None => {},
            }
        }
    }
    let phase = if ph > MAX_PHASE {
        MAX_PHASE
    } else {
        ph
    };
    proof {
        assert(-1_459_200 <= mg as int * phase as int <= 1_459_200 && -1_459_200 <= eg as int * (24
            - phase as int) <= 1_459_200 && -1_459_200 <= mg as int * phase as int + eg as int * (24
            - phase as int) <= 1_459_200) by (nonlinear_arith)
            requires
                -60800 <= mg as int <= 60800,
                -60800 <= eg as int <= 60800,
                0 <= phase as int <= 24,
        ;
    }
    let num = mg * phase + eg * (MAX_PHASE - phase);
    proof {
        if num >= 0 {
            vstd::arithmetic::div_mod::lemma_div_is_ordered(0, num as int, 24);
            vstd::arithmetic::div_mod::lemma_div_is_ordered(num as int, 1_459_200, 24);
        } else {
            vstd::arithmetic::div_mod::lemma_div_is_ordered(0, -(num as int), 24);
            vstd::arithmetic::div_mod::lemma_div_is_ordered(-(num as int), 1_459_200, 24);
        }
    }
    let raw = if num >= 0 {
        num / 24
    } else {
        -((-num) / 24)
    };
    if p.white_to_move {
        raw
    } else {
        -raw
    }
}

/// Swapping a piece's color negates its term, read at the mirrored square.
proof fn lemma_term_mirror(vals: [i32; 6], pst: [[i32; 64]; 6], c: SquareContent, i: int)
    requires
        0 <= i < 64,
    ensures
        piece_term(vals, pst, swap_color(c), i) == -piece_term(vals, pst, c, flip_sq(i)),
{
    crate::model::lemma_flip_involution(i);
}

/// A file sum over the mirrored board is the negated file sum over the
/// mirrored rank of the original board.
proof fn lemma_file_sum_mirror(
    vals: [i32; 6],
    pst: [[i32; 64]; 6],
    s: Seq<SquareContent>,
    r: int,
    k: int,
)
    requires
        s.len() == 64,
        0 <= r < 8,
        0 <= k <= 8,
    ensures
        file_sum(vals, pst, mirror_squares(s), r, k) == -file_sum(vals, pst, s, 7 - r, k),
    decreases k,
{
    if k > 0 {
        lemma_file_sum_mirror(vals, pst, s, r, k - 1);
        let i = 8 * r + (k - 1);
        vstd::arithmetic::div_mod::lemma_fundamental_div_mod_converse(i, 8, r, k - 1);
        assert(flip_sq(i) == 8 * (7 - r) + (k - 1));
        assert(mirror_squares(s)[i] == swap_color(s[flip_sq(i)]));
        lemma_term_mirror(vals, pst, s[flip_sq(i)], i);
        crate::model::lemma_flip_involution(i);
    }
}

/// The whole material + piece-square sum negates under mirroring.
proof fn lemma_rank_sum_mirror(vals: [i32; 6], pst: [[i32; 64]; 6], s: Seq<SquareContent>)
    requires
        s.len() == 64,
    ensures
        rank_sum(vals, pst, mirror_squares(s), 8) == -rank_sum(vals, pst, s, 8),
{
    let m = mirror_squares(s);
    lemma_file_sum_mirror(vals, pst, s, 0, 8);
    lemma_file_sum_mirror(vals, pst, s, 1, 8);
    lemma_file_sum_mirror(vals, pst, s, 2, 8);
    lemma_file_sum_mirror(vals, pst, s, 3, 8);
    lemma_file_sum_mirror(vals, pst, s, 4, 8);
    lemma_file_sum_mirror(vals, pst, s, 5, 8);
    lemma_file_sum_mirror(vals, pst, s, 6, 8);
    lemma_file_sum_mirror(vals, pst, s, 7, 8);
    assert(rank_sum(vals, pst, m, 8) == file_sum(vals, pst, m, 0, 8) + file_sum(vals, pst, m, 1, 8)
        + file_sum(vals, pst, m, 2, 8) + file_sum(vals, pst, m, 3, 8) + file_sum(vals, pst, m, 4, 8)
        + file_sum(vals, pst, m, 5, 8) + file_sum(vals, pst, m, 6, 8) + file_sum(
        vals,
        pst,
        m,
        7,
        8,
    )) by {
        reveal_with_fuel(rank_sum, 9);
    }
    assert(rank_sum(vals, pst, s, 8) == file_sum(vals, pst, s, 0, 8) + file_sum(vals, pst, s, 1, 8)
        + file_sum(vals, pst, s, 2, 8) + file_sum(vals, pst, s, 3, 8) + file_sum(vals, pst, s, 4, 8)
        + file_sum(vals, pst, s, 5, 8) + file_sum(vals, pst, s, 6, 8) + file_sum(
        vals,
        pst,
        s,
        7,
        8,
    )) by {
        reveal_with_fuel(rank_sum, 9);
    }
}

/// A phase file sum over the mirrored board equals the phase file sum over
/// the mirrored rank of the original board.
proof fn lemma_phase_file_sum_mirror(s: Seq<SquareContent>, r: int, k: int)
    requires
        s.len() == 64,
        0 <= r < 8,
        0 <= k <= 8,
    ensures
        phase_file_sum(mirror_squares(s), r, k) == phase_file_sum(s, 7 - r, k),
    decreases k,
{
    if k > 0 {
        lemma_phase_file_sum_mirror(s, r, k - 1);
        let i = 8 * r + (k - 1);
        vstd::arithmetic::div_mod::lemma_fundamental_div_mod_converse(i, 8, r, k - 1);
        assert(flip_sq(i) == 8 * (7 - r) + (k - 1));
        assert(mirror_squares(s)[i] == swap_color(s[flip_sq(i)]));
        assert(phase_term(swap_color(s[flip_sq(i)])) == phase_term(s[flip_sq(i)]));
    }
}

/// The game phase does not change under mirroring.
pub proof fn lemma_phase_mirror(s: Seq<SquareContent>)
    requires
        s.len() == 64,
    ensures
        spec_phase(mirror_squares(s)) == spec_phase(s),
{
    let m = mirror_squares(s);
    lemma_phase_file_sum_mirror(s, 0, 8);
    lemma_phase_file_sum_mirror(s, 1, 8);
    lemma_phase_file_sum_mirror(s, 2, 8);
    lemma_phase_file_sum_mirror(s, 3, 8);
    lemma_phase_file_sum_mirror(s, 4, 8);
    lemma_phase_file_sum_mirror(s, 5, 8);
    lemma_phase_file_sum_mirror(s, 6, 8);
    lemma_phase_file_sum_mirror(s, 7, 8);
    assert(phase_rank_sum(m, 8) == phase_file_sum(m, 0, 8) + phase_file_sum(m, 1, 8)
        + phase_file_sum(m, 2, 8) + phase_file_sum(m, 3, 8) + phase_file_sum(m, 4, 8)
        + phase_file_sum(m, 5, 8) + phase_file_sum(m, 6, 8) + phase_file_sum(m, 7, 8)) by {
        reveal_with_fuel(phase_rank_sum, 9);
    }
    assert(phase_rank_sum(s, 8) == phase_file_sum(s, 0, 8) + phase_file_sum(s, 1, 8)
        + phase_file_sum(s, 2, 8) + phase_file_sum(s, 3, 8) + phase_file_sum(s, 4, 8)
        + phase_file_sum(s, 5, 8) + phase_file_sum(s, 6, 8) + phase_file_sum(s, 7, 8)) by {
        reveal_with_fuel(phase_rank_sum, 9);
    }
}

/// Truncating division is odd in its dividend.
proof fn lemma_tdiv_neg(a: int, b: int)
    requires
        b > 0,
    ensures
        tdiv(-a, b) == -tdiv(a, b),
{
}

/// Evaluation symmetry: mirroring a board vertically, swapping the colors
/// of its pieces and giving the other side the move leaves the static
/// evaluation unchanged, since it is reported from the side-to-move
/// perspective.
pub proof fn lemma_eval_mirror(s: Seq<SquareContent>, white_to_move: bool)
    requires
        s.len() == 64,
    ensures
        spec_eval(mirror_squares(s), !white_to_move) == spec_eval(s, white_to_move),
{
    let m = mirror_squares(s);
    lemma_rank_sum_mirror(MG_PIECE_VALUES, MG_PST, s);
    lemma_rank_sum_mirror(EG_PIECE_VALUES, EG_PST, s);
    lemma_phase_mirror(s);
    let mg = mg_score(s);
    let eg = eg_score(s);
    let ph = spec_phase(s);
    assert((-mg) * ph == -(mg * ph)) by (nonlinear_arith);
    assert((-eg) * (24 - ph) == -(eg * (24 - ph))) by (nonlinear_arith);
    lemma_tdiv_neg(mg * ph + eg * (24 - ph), 24);
}

} // verus!

