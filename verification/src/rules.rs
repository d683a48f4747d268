//! The trusted boundary to the `cozy_chess` rules library: the board
//! handle, and the handful of queries the engine needs — hashing, piece
//! placement, side to move, en-passant file, check status, legal move
//! generation and move application. Every query is a pure function of the
//! board value alone, so each wrapper's result is pinned to a named
//! function of the board; the board itself stays opaque.
use vstd::prelude::*;

use crate::model::{squares_wf, Mv, Pos, SquareContent};

verus! {

#[verifier::external_type_specification]
#[verifier::external_body]
pub struct ExBoard(cozy_chess::Board);

/// The board's 64-bit Zobrist-style hash.
pub uninterp spec fn hash_of(b: cozy_chess::Board) -> u64;

/// Whether White is to move on the board.
pub uninterp spec fn side_white_of(b: cozy_chess::Board) -> bool;

/// The kind of the piece on a square of the board, if any, as an index
/// pawn..king.
pub uninterp spec fn piece_kind_on(b: cozy_chess::Board, sq: int) -> Option<u8>;

/// Whether the piece on a square of the board, if any, is White's.
pub uninterp spec fn piece_white_on(b: cozy_chess::Board, sq: int) -> Option<bool>;

/// The board's en-passant target file, if any, as an index 0..8.
pub uninterp spec fn ep_file_of(b: cozy_chess::Board) -> Option<u8>;

/// Whether the side to move on the board is in check.
pub uninterp spec fn in_check_of(b: cozy_chess::Board) -> bool;

/// The board's legal moves, in the order the rules library generates
/// them (a pure function of the position).
pub uninterp spec fn legal_moves_of(b: cozy_chess::Board) -> Seq<Mv>;

/// The position reached by playing a legal move on the board.
pub uninterp spec fn play_of(b: cozy_chess::Board, mv: Mv) -> cozy_chess::Board;

/// The board's piece placement as the engine's own square map, built from
/// the named per-square queries.
pub open spec fn board_squares(b: cozy_chess::Board) -> Seq<SquareContent> {
    Seq::new(
        64,
        |i: int|
            match (piece_white_on(b, i), piece_kind_on(b, i)) {
                (Some(w), Some(p)) => Some((w, p)),
                _ => None,
            },
    )
}

/// Relies on `cozy_chess::Board::hash`: the position's hash, stable under
/// transpositions and a function of the position alone.
#[verifier::external_body]
pub(crate) fn board_hash(b: &cozy_chess::Board) -> (r: u64)
    ensures
        r == hash_of(*b),
{
    b.hash()
}

/// Relies on `cozy_chess::Board::side_to_move`: true iff White is to
/// move; a function of the position alone.
#[verifier::external_body]
pub(crate) fn board_side_white(b: &cozy_chess::Board) -> (r: bool)
    ensures
        r == side_white_of(*b),
{
    match b.side_to_move() {
        cozy_chess::Color::White => true,
        cozy_chess::Color::Black => false,
    }
}

/// Relies on `cozy_chess::Board::piece_on`: the kind of the piece on the
/// square, if any, as an index pawn..king (the library numbers its six
/// piece kinds in that order); a function of the position alone.
#[verifier::external_body]
pub(crate) fn board_piece_on(b: &cozy_chess::Board, sq: u8) -> (r: Option<u8>)
    requires
        sq < 64,
    ensures
        r == piece_kind_on(*b, sq as int),
        match r {
            Some(p) => p < 6,
            None => true,
        },
{
    b.piece_on(cozy_chess::Square::index(sq as usize)).map(|p| p as u8)
}

/// Relies on `cozy_chess::Board::color_on`: whether the piece on the
/// square, if any, is White's; a function of the position alone.
#[verifier::external_body]
pub(crate) fn board_color_is_white_on(b: &cozy_chess::Board, sq: u8) -> (r: Option<bool>)
    requires
        sq < 64,
    ensures
        r == piece_white_on(*b, sq as int),
{
    b.color_on(cozy_chess::Square::index(sq as usize)).map(|c| c == cozy_chess::Color::White)
}

/// Relies on `cozy_chess::Board::en_passant`: the en-passant target file,
/// if any, as an index 0..8 (the library numbers its eight files a..h); a
/// function of the position alone.
#[verifier::external_body]
pub(crate) fn board_ep_file(b: &cozy_chess::Board) -> (r: Option<u8>)
    ensures
        r == ep_file_of(*b),
        match r {
            Some(f) => f < 8,
            None => true,
        },
{
    b.en_passant().map(|f| f as u8)
}

/// Relies on `cozy_chess::Board::checkers` and `BitBoard::is_empty`: the
/// checkers bitboard is empty iff the side to move is not in check; a
/// function of the position alone.
#[verifier::external_body]
pub(crate) fn board_in_check(b: &cozy_chess::Board) -> (r: bool)
    ensures
        r == in_check_of(*b),
{
    !b.checkers().is_empty()
}

/// Relies on `cozy_chess::Board::generate_moves`: every legal move of the
/// position, generated deterministically from the position alone. Squares
/// index 0..64 and promotion pieces index under 6 by the library's own
/// numbering.
#[verifier::external_body]
pub(crate) fn board_legal_moves(b: &cozy_chess::Board) -> (r: Vec<Mv>)
    ensures
        r@ == legal_moves_of(*b),
        forall|i: int| 0 <= i < r@.len() ==> (#[trigger] r@[i]).wf(),
{
    let mut out: Vec<Mv> = Vec::new();
    b.generate_moves(|pm| {
        for m in pm {
            out.push(Mv { from: m.from as u8, to: m.to as u8, promo: m.promotion.map(|p| p as u8) });
        }
        false
    });
    out
}

/// Relies on `cozy_chess::Board::try_play`: the position after the move,
/// or nothing exactly when the move is not among the position's legal
/// moves (`try_play` rejects a move iff `is_legal` refuses it, and the
/// generator produces exactly the legal moves).
#[verifier::external_body]
pub(crate) fn board_play(b: &cozy_chess::Board, mv: Mv) -> (r: Option<cozy_chess::Board>)
    requires
        mv.wf(),
    ensures
        r is Some <==> legal_moves_of(*b).contains(mv),
        r matches Some(nb) ==> nb == play_of(*b, mv),
{
    let from = cozy_chess::Square::index(mv.from as usize);
    let to = cozy_chess::Square::index(mv.to as usize);
    let promotion = mv.promo.map(|p| cozy_chess::Piece::index(p as usize));
    let mut nb = b.clone();
    match nb.try_play(cozy_chess::Move { from, to, promotion }) {
        Ok(()) => Some(nb),
        Err(_) => None,
    }
}

/// Read a position out of the board, square by square, into the engine's
/// own model: exactly the board's placement, side to move, en-passant
/// file and check status.
pub fn read_position(b: &cozy_chess::Board) -> (r: Pos)
    ensures
        r.wf(),
        r.squares@ == board_squares(*b),
        r.white_to_move == side_white_of(*b),
        r.ep_file == ep_file_of(*b),
        r.in_check == in_check_of(*b),
{
    let mut squares: Vec<SquareContent> = Vec::new();
    for sq in 0..64u8
        invariant
            squares@.len() == sq as int,
            forall|j: int| 0 <= j < sq as int ==> squares@[j] == board_squares(*b)[j],
            forall|j: int|
                0 <= j < sq as int ==> match #[trigger] squares@[j] {
                    Some(c) => c.1 < 6,
                    None => true,
                },
    {
        let c: SquareContent = match (board_color_is_white_on(b, sq), board_piece_on(b, sq)) {
            (Some(w), Some(p)) => Some((w, p)),
            _ => None,
        };
        squares.push(c);
    }
    proof {
        assert(squares@ =~= board_squares(*b));
        assert(squares_wf(squares@));
    }
    Pos {
        squares,
        white_to_move: board_side_white(b),
        ep_file: board_ep_file(b),
        in_check: board_in_check(b),
    }
}

/// The position reached from `b` after playing a line of moves in order.
pub open spec fn line_result(b: cozy_chess::Board, moves: Seq<Mv>) -> cozy_chess::Board
    decreases moves.len(),
{
    if moves.len() == 0 {
        b
    } else {
        play_of(line_result(b, moves.drop_last()), moves.last())
    }
}

/// Whether each move of the line is legal in the position its prefix
/// reaches.
pub open spec fn line_legal(b: cozy_chess::Board, moves: Seq<Mv>) -> bool
    decreases moves.len(),
{
    moves.len() == 0 || (line_legal(b, moves.drop_last()) && legal_moves_of(
        line_result(b, moves.drop_last()),
    ).contains(moves.last()))
}

/// The hashes of the successive positions a line of moves reaches: one
/// per applied move.
pub open spec fn line_hashes(b: cozy_chess::Board, moves: Seq<Mv>) -> Seq<u64>
    decreases moves.len(),
{
    if moves.len() == 0 {
        Seq::empty()
    } else {
        line_hashes(b, moves.drop_last()).push(hash_of(line_result(b, moves)))
    }
}

/// A legal line stays legal when cut short.
proof fn lemma_line_legal_prefix(b: cozy_chess::Board, moves: Seq<Mv>, n: int)
    requires
        line_legal(b, moves),
        0 <= n <= moves.len(),
    ensures
        line_legal(b, moves.take(n)),
    decreases moves.len() - n,
{
    if n == moves.len() {
        assert(moves.take(n) =~= moves);
    } else {
        lemma_line_legal_prefix(b, moves, n + 1);
        assert(moves.take(n + 1).drop_last() =~= moves.take(n));
    }
}

/// Apply a line of moves from a starting position, collecting the game
/// history. The application succeeds exactly when each move of the line
/// is legal where it stands; on success the final position and the hash
/// of every intermediate position (one per applied move, as the driver
/// keeps its history) come back.
pub fn apply_moves(start: cozy_chess::Board, moves: &Vec<Mv>) -> (r: Option<
    (cozy_chess::Board, Vec<u64>),
>)
    requires
        forall|i: int| 0 <= i < moves@.len() ==> (#[trigger] moves@[i]).wf(),
    ensures
        r is Some <==> line_legal(start, moves@),
        match r {
            Some(bh) => {
                &&& bh.0 == line_result(start, moves@)
                &&& bh.1@ == line_hashes(start, moves@)
                &&& bh.1@.len() == moves@.len()
            },
            None => true,
        },
{
    let mut board = start;
    let mut history: Vec<u64> = Vec::new();
    let n = moves.len();
    for i in 0..n
        invariant
            n as int == moves@.len(),
            history@.len() == i as int,
            line_legal(start, moves@.take(i as int)),
            board == line_result(start, moves@.take(i as int)),
            history@ == line_hashes(start, moves@.take(i as int)),
            forall|k: int| 0 <= k < moves@.len() ==> (#[trigger] moves@[k]).wf(),
    {
        proof {
            assert(moves@.take(i as int + 1).drop_last() =~= moves@.take(i as int));
            assert(moves@.take(i as int + 1).last() == moves@[i as int]);
        }
        match board_play(&board, moves[i]) {
            Some(nb) => {
                board = nb;
                history.push(board_hash(&board));
            },
            None => {
                proof {
                    if line_legal(start, moves@) {
                        lemma_line_legal_prefix(start, moves@, i as int + 1);
                    }
                }
                return None;
            },
        }
    }
    proof {
        assert(moves@.take(n as int) =~= moves@);
    }
    Some((board, history))
}

} // verus!
