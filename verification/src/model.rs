//! The engine's own view of chess data: moves as plain square indices and
//! positions as a 64-entry square map, with their well-formedness
//! conditions and the vertical mirror used to state evaluation symmetry.
use vstd::prelude::*;

verus! {

/// A move: origin square, target square, and an optional promotion piece,
/// all as plain indices (squares 0..64 with 0 = a1, pieces 0..6 pawn..king).
#[derive(Clone, Copy, PartialEq, Eq, Structural, Debug)]
pub struct Mv {
    pub from: u8,
    pub to: u8,
    pub promo: Option<u8>,
}

impl Mv {
    /// Both squares on the board; a promotion piece, if any, a real kind.
    pub open spec fn wf(self) -> bool {
        &&& self.from < 64
        &&& self.to < 64
        &&& match self.promo {
            Some(p) => p < 6,
            None => true,
        }
    }

    /// The synthetic null move (a1 to a1), played when no legal move exists.
    pub fn null() -> (r: Mv)
        ensures
            r.from == 0 && r.to == 0 && r.promo.is_none(),
            r.wf(),
    {
        Mv { from: 0, to: 0, promo: None }
    }
}

/// What a square holds: nothing, or a piece given as (belongs-to-White, kind).
pub type SquareContent = Option<(bool, u8)>;

/// A position, read out of the rules library into plain values: one entry
/// per square (index 0 = a1, square `8*rank + file`), the side to move,
/// the en-passant target file if any, and whether the side to move is in
/// check.
pub struct Pos {
    pub squares: Vec<SquareContent>,
    pub white_to_move: bool,
    pub ep_file: Option<u8>,
    pub in_check: bool,
}

/// Every piece kind in a square map is a real kind.
pub open spec fn squares_wf(s: Seq<SquareContent>) -> bool {
    &&& s.len() == 64
    &&& forall|i: int|
        0 <= i < 64 ==> match #[trigger] s[i] {
            Some(c) => c.1 < 6,
            None => true,
        }
}

impl Pos {
    /// A well-formed position: 64 squares of real pieces, and an
    /// en-passant file, if any, on the board.
    pub open spec fn wf(&self) -> bool {
        &&& squares_wf(self.squares@)
        &&& match self.ep_file {
            Some(f) => f < 8,
            None => true,
        }
    }

    /// Runtime check of `wf`, so that unverified callers can establish it.
    pub fn check_wf(&self) -> (r: bool)
        ensures
            r == self.wf(),
    {
        if self.squares.len() != 64 {
            return false;
        }
        match self.ep_file {
            Some(f) => {
                if f >= 8 {
                    return false;
                }
            },
            None => {},
        }
        for i in 0..64usize
            invariant
                self.squares@.len() == 64,
                forall|j: int|
                    0 <= j < i ==> match #[trigger] self.squares@[j] {
                        Some(c) => c.1 < 6,
                        None => true,
                    },
        {
            match self.squares[i] {
                Some(c) => {
                    if c.1 >= 6 {
                        return false;
                    }
                },
                None => {},
            }
        }
        true
    }
}

/// The square on the vertically mirrored board: same file, rank `7 - r`.
/// On square indices this is the XOR with 56 that the rules library's
/// `flip_rank` performs.
pub open spec fn flip_sq(sq: int) -> int {
    56 - 8 * (sq / 8) + sq % 8
}

/// Flipping ranks twice gives the square back.
pub proof fn lemma_flip_involution(sq: int)
    requires
        0 <= sq < 64,
    ensures
        0 <= flip_sq(sq) < 64,
        flip_sq(flip_sq(sq)) == sq,
{
    assert(0 <= sq / 8 < 8);
    assert(flip_sq(sq) == 8 * (7 - sq / 8) + sq % 8);
    assert(flip_sq(sq) / 8 == 7 - sq / 8 && flip_sq(sq) % 8 == sq % 8) by (nonlinear_arith)
        requires
            0 <= sq < 64,
            flip_sq(sq) == 8 * (7 - sq / 8) + sq % 8,
    ;
}

/// Exec form of `flip_sq`, written as the XOR the rules library uses.
pub fn flip_sq_x(sq: u8) -> (r: u8)
    requires
        sq < 64,
    ensures
        r as int == flip_sq(sq as int),
        r < 64,
{
    proof {
        assert((sq ^ 56) == 56 - 8 * (sq / 8) + sq % 8 && (sq ^ 56) < 64) by (bit_vector)
            requires
                sq < 64,
        ;
    }
    sq ^ 56
}

/// The same piece for the other side.
pub open spec fn swap_color(c: SquareContent) -> SquareContent {
    match c {
        Some(pc) => Some((!pc.0, pc.1)),
        None => None,
    }
}

/// The mirror of a square map: what stands on `sq` is what stood on
/// `flip_sq(sq)`, with its color swapped.
pub open spec fn mirror_squares(s: Seq<SquareContent>) -> Seq<SquareContent> {
    Seq::new(64, |i: int| swap_color(s[flip_sq(i)]))
}

/// Mirroring preserves well-formedness of the square map.
pub proof fn lemma_mirror_squares_wf(s: Seq<SquareContent>)
    requires
        squares_wf(s),
    ensures
        squares_wf(mirror_squares(s)),
{
    let m = mirror_squares(s);
    assert forall|i: int| 0 <= i < 64 implies match #[trigger] m[i] {
        Some(c) => c.1 < 6,
        None => true,
    } by {
        lemma_flip_involution(i);
        assert(m[i] == swap_color(s[flip_sq(i)]));
    }
}

/// Build the mirror of a position: board flipped vertically with colors
/// swapped, the other side to move, en-passant file and check status kept.
pub fn mirror(p: &Pos) -> (r: Pos)
    requires
        p.wf(),
    ensures
        r.squares@ == mirror_squares(p.squares@),
        r.white_to_move == !p.white_to_move,
        r.ep_file == p.ep_file,
        r.in_check == p.in_check,
        r.wf(),
{
    let mut sqs: Vec<SquareContent> = Vec::new();
    for i in 0..64u8
        invariant
            p.wf(),
            sqs@.len() == i as int,
            forall|j: int| 0 <= j < i as int ==> sqs@[j] == swap_color(p.squares@[flip_sq(j)]),
    {
        proof {
            lemma_flip_involution(i as int);
        }
        let f = flip_sq_x(i);
        let c: SquareContent = match p.squares[f as usize] {
            Some(pc) => Some((!pc.0, pc.1)),
            None => None,
        };
        sqs.push(c);
    }
    let r = Pos { squares: sqs, white_to_move: !p.white_to_move, ep_file: p.ep_file, in_check: p.in_check };
    proof {
        assert(r.squares@ =~= mirror_squares(p.squares@));
        lemma_mirror_squares_wf(p.squares@);
    }
    r
}

} // verus!
