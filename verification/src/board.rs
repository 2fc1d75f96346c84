//! The 8x8 board: a grid of optional pieces with unconditional placement
//! and relocation primitives. The board never validates moves itself; the
//! game layer is responsible for legality.

use crate::piece::{on_board, Colour, Piece, PossiblePieces, Pair};
use vstd::prelude::*;

verus! {

/// The board, stored row-major: index `8 * rank + file`, rank 0 being
/// White's back rank.
pub struct Board {
    pub squares: Vec<Option<Piece>>,
}

impl View for Board {
    type V = Seq<Option<Piece>>;

    open spec fn view(&self) -> Seq<Option<Piece>> {
        self.squares@
    }
}

/// Row-major index of a square.
pub open spec fn idx(r: int, f: int) -> int {
    8 * r + f
}

/// The occupant a square holds after relocating the occupant of
/// `(fr, ff)` to `(tr, tf)`: the destination receives the origin's
/// occupant (overwriting a capture victim), the origin becomes empty, and
/// every other square is untouched. Relocating a square onto itself
/// changes nothing.
pub open spec fn moved(b: Seq<Option<Piece>>, fr: int, ff: int, tr: int, tf: int) -> Seq<
    Option<Piece>,
> {
    b.update(idx(fr, ff), None).update(idx(tr, tf), b[idx(fr, ff)])
}

/// The standard initial occupant of a square: White's piece row on rank 0,
/// pawns on ranks 1 and 6, Black's piece row on rank 7, nothing elsewhere.
pub open spec fn initial_square(r: int, f: int) -> Option<Piece> {
    if r == 0 {
        Some(Piece { kind: back_rank_kind(f), colour: Colour::White })
    } else if r == 1 {
        Some(Piece { kind: PossiblePieces::Pawn, colour: Colour::White })
    } else if r == 6 {
        Some(Piece { kind: PossiblePieces::Pawn, colour: Colour::Black })
    } else if r == 7 {
        Some(Piece { kind: back_rank_kind(f), colour: Colour::Black })
    } else {
        None
    }
}

/// The piece kind standing on a back-rank file in the initial position.
pub open spec fn back_rank_kind(f: int) -> PossiblePieces {
    if f == 0 || f == 7 {
        PossiblePieces::Rook
    } else if f == 1 || f == 6 {
        PossiblePieces::Knight
    } else if f == 2 || f == 5 {
        PossiblePieces::Bishop
    } else if f == 3 {
        PossiblePieces::Queen
    } else {
        PossiblePieces::King
    }
}

/// The full initial position, row-major.
pub open spec fn initial_board() -> Seq<Option<Piece>> {
    Seq::new(64, |i: int| initial_square(i / 8, i % 8))
}

/// Number of occupied squares.
pub open spec fn piece_count(b: Seq<Option<Piece>>) -> int
    decreases b.len(),
{
    if b.len() == 0 {
        0
    } else {
        piece_count(b.drop_last()) + if b.last() is Some {
            1int
        } else {
            0int
        }
    }
}

impl Board {
    /// The board always holds exactly 64 squares.
    pub open spec fn wf(&self) -> bool {
        self@.len() == 64
    }

    /// The occupant of square `(r, f)`.
    pub open spec fn at(&self, r: int, f: int) -> Option<Piece> {
        self@[idx(r, f)]
    }

    fn valid_pos(pos: Pair) -> (r: bool)
        ensures
            r == on_board(pos.0 as int, pos.1 as int),
    {
        pos.0 < 8 && pos.1 < 8
    }

    /// The occupant of a square, or nothing for an off-board square.
    pub fn piece_at(&self, pos: Pair) -> (r: Option<Piece>)
        requires
            self.wf(),
        ensures
            r == if on_board(pos.0 as int, pos.1 as int) {
                self.at(pos.0 as int, pos.1 as int)
            } else {
                Option::<Piece>::None
            },
    {
        if !Self::valid_pos(pos) {
            return None;
        }
        self.squares[8 * pos.0 + pos.1]
    }

    /// One rank of the board, low file first. Serves as the row-major
    /// accessor for rendering.
    pub fn row(&self, r: usize) -> (row: Vec<Option<Piece>>)
        requires
            self.wf(),
            r < 8,
        ensures
            row@.len() == 8,
            forall|f: int| 0 <= f < 8 ==> row@[f] == self.at(r as int, f),
    {
        let mut row: Vec<Option<Piece>> = Vec::new();
        let mut f: usize = 0;
        while f < 8
            invariant
                self.wf(),
                r < 8,
                f <= 8,
                row@.len() == f,
                forall|j: int| 0 <= j < f ==> row@[j] == self.at(r as int, j),
            decreases 8 - f,
        {
            row.push(self.squares[8 * r + f]);
            f += 1;
        }
        row
    }

    /// All eight ranks in rank-ascending order, each as its row of eight
    /// squares. Verus refuses the `Iterator` trait, so traversal hands out
    /// the rows at once instead of lazily.
    pub fn iter(&self) -> (rows: Vec<Vec<Option<Piece>>>)
        requires
            self.wf(),
        ensures
            rows@.len() == 8,
            forall|r: int| 0 <= r < 8 ==> #[trigger] rows@[r]@.len() == 8,
            forall|r: int, f: int| on_board(r, f) ==> #[trigger] rows@[r]@[f] == self.at(r, f),
    {
        let mut rows: Vec<Vec<Option<Piece>>> = Vec::new();
        let mut r: usize = 0;
        while r < 8
            invariant
                self.wf(),
                r <= 8,
                rows@.len() == r,
                forall|i: int| 0 <= i < r ==> #[trigger] rows@[i]@.len() == 8,
                forall|i: int, f: int|
                    0 <= i < r && 0 <= f < 8 ==> #[trigger] rows@[i]@[f] == self.at(i, f),
            decreases 8 - r,
        {
            rows.push(self.row(r));
            r += 1;
        }
        rows
    }

    /// Rank-ascending traversal consuming the board.
    pub fn into_iter(self) -> (rows: Vec<Vec<Option<Piece>>>)
        requires
            self.wf(),
        ensures
            rows@.len() == 8,
            forall|r: int| 0 <= r < 8 ==> #[trigger] rows@[r]@.len() == 8,
            forall|r: int, f: int| on_board(r, f) ==> #[trigger] rows@[r]@[f] == self.at(r, f),
    {
        self.iter()
    }

    /// Unconditionally overwrite a square; a no-op for an off-board square.
    pub fn set_piece(&mut self, pos: Pair, piece: Option<Piece>)
        requires
            old(self).wf(),
        ensures
            final(self).wf(),
            on_board(pos.0 as int, pos.1 as int) ==> final(self)@ == old(self)@.update(
                idx(pos.0 as int, pos.1 as int),
                piece,
            ),
            on_board(pos.0 as int, pos.1 as int) ==> forall|r: int, f: int|
                on_board(r, f) ==> #[trigger] final(self).at(r, f) == if r == pos.0 as int && f
                    == pos.1 as int {
                    piece
                } else {
                    old(self).at(r, f)
                },
            !on_board(pos.0 as int, pos.1 as int) ==> *final(self) == *old(self),
    {
        if !Self::valid_pos(pos) {
            return ;
        }
        self.squares.set(8 * pos.0 + pos.1, piece);
    }

    /// Relocate whatever stands at `from_pos` to `to_pos`, overwriting the
    /// destination (this is how captures physically happen); the origin
    /// becomes empty. A no-op if either square is off the board.
    pub fn move_piece(&mut self, from_pos: Pair, to_pos: Pair)
        requires
            old(self).wf(),
        ensures
            final(self).wf(),
            on_board(from_pos.0 as int, from_pos.1 as int) && on_board(
                to_pos.0 as int,
                to_pos.1 as int,
            ) ==> final(self)@ == moved(
                old(self)@,
                from_pos.0 as int,
                from_pos.1 as int,
                to_pos.0 as int,
                to_pos.1 as int,
            ),
            on_board(from_pos.0 as int, from_pos.1 as int) && on_board(
                to_pos.0 as int,
                to_pos.1 as int,
            ) ==> forall|r: int, f: int|
                on_board(r, f) ==> #[trigger] final(self).at(r, f) == if r == to_pos.0 as int && f
                    == to_pos.1 as int {
                    old(self).at(from_pos.0 as int, from_pos.1 as int)
                } else if r == from_pos.0 as int && f == from_pos.1 as int {
                    Option::<Piece>::None
                } else {
                    old(self).at(r, f)
                },
            !(on_board(from_pos.0 as int, from_pos.1 as int) && on_board(
                to_pos.0 as int,
                to_pos.1 as int,
            )) ==> *final(self) == *old(self),
    {
        if !Self::valid_pos(from_pos) || !Self::valid_pos(to_pos) {
            return ;
        }
        let p = self.squares[8 * from_pos.0 + from_pos.1];
        self.squares.set(8 * from_pos.0 + from_pos.1, None);
        self.squares.set(8 * to_pos.0 + to_pos.1, p);
        proof {
            lemma_idx_injective();
        }
    }
}

/// Distinct on-board squares have distinct row-major indices, and every
/// index of an on-board square lies below 64.
pub proof fn lemma_idx_injective()
    ensures
        forall|r1: int, f1: int, r2: int, f2: int|
            on_board(r1, f1) && on_board(r2, f2) && #[trigger] idx(r1, f1) == #[trigger] idx(
                r2,
                f2,
            ) ==> r1 == r2 && f1 == f2,
        forall|r: int, f: int| on_board(r, f) ==> 0 <= #[trigger] idx(r, f) < 64,
{
}

impl Default for Board {
    /// The standard initial position.
    fn default() -> (b: Board)
        ensures
            b.wf(),
            b@ == initial_board(),
            forall|r: int, f: int|
                on_board(r, f) ==> #[trigger] b.at(r, f) == initial_square(r, f),
    {
        let mut squares: Vec<Option<Piece>> = Vec::new();
        let mut i: usize = 0;
        while i < 64
            invariant
                i <= 64,
                squares@.len() == i,
                forall|j: int| 0 <= j < i ==> squares@[j] == initial_square(j / 8, j % 8),
            decreases 64 - i,
        {
            let r = i / 8;
            let f = i % 8;
            squares.push(starting_piece(r, f));
            i += 1;
        }
        let b = Board { squares };
        proof {
            assert(b@ =~= initial_board());
            assert forall|r: int, f: int| on_board(r, f) implies #[trigger] b.at(r, f)
                == initial_square(r, f) by {
                assert(idx(r, f) / 8 == r && idx(r, f) % 8 == f) by (nonlinear_arith)
                    requires
                        on_board(r, f),
                ;
            }
        }
        b
    }
}

/// The piece initially standing on `(r, f)`, as executable code.
fn starting_piece(r: usize, f: usize) -> (p: Option<Piece>)
    requires
        r < 8,
        f < 8,
    ensures
        p == initial_square(r as int, f as int),
{
    if r == 0 || r == 7 {
        let colour = if r == 0 {
            Colour::White
        } else {
            Colour::Black
        };
        let kind = if f == 0 || f == 7 {
            PossiblePieces::Rook
        } else if f == 1 || f == 6 {
            PossiblePieces::Knight
        } else if f == 2 || f == 5 {
            PossiblePieces::Bishop
        } else if f == 3 {
            PossiblePieces::Queen
        } else {
            PossiblePieces::King
        };
        Some(Piece { kind, colour })
    } else if r == 1 {
        Some(Piece { kind: PossiblePieces::Pawn, colour: Colour::White })
    } else if r == 6 {
        Some(Piece { kind: PossiblePieces::Pawn, colour: Colour::Black })
    } else {
        None
    }
}

/// How a single-square overwrite changes the number of occupied squares:
/// the old occupant's contribution is replaced by the new one's.
proof fn lemma_piece_count_update(b: Seq<Option<Piece>>, i: int, v: Option<Piece>)
    requires
        0 <= i < b.len(),
    ensures
        piece_count(b.update(i, v)) == piece_count(b) - (if b[i] is Some {
            1int
        } else {
            0int
        }) + (if v is Some {
            1int
        } else {
            0int
        }),
    decreases b.len(),
{
    let bu = b.update(i, v);
    if i == b.len() - 1 {
        assert(bu.drop_last() =~= b.drop_last());
    } else {
        assert(bu.drop_last() =~= b.drop_last().update(i, v));
        lemma_piece_count_update(b.drop_last(), i, v);
    }
}

/// A relocation between distinct on-board squares empties the origin,
/// leaves exactly the mover at the destination, touches no other square,
/// and removes exactly one piece when the destination was occupied (the
/// capture victim) and none when it was empty.
pub proof fn lemma_capture_effect(b: Board, fr: int, ff: int, tr: int, tf: int)
    requires
        b.wf(),
        on_board(fr, ff),
        on_board(tr, tf),
        !(fr == tr && ff == tf),
        b.at(fr, ff) is Some,
    ensures
        moved(b@, fr, ff, tr, tf)[idx(tr, tf)] == b.at(fr, ff),
        moved(b@, fr, ff, tr, tf)[idx(fr, ff)] is None,
        forall|r: int, f: int|
            on_board(r, f) && !(r == fr && f == ff) && !(r == tr && f == tf) ==> moved(
                b@,
                fr,
                ff,
                tr,
                tf,
            )[#[trigger] idx(r, f)] == b.at(r, f),
        piece_count(moved(b@, fr, ff, tr, tf)) == piece_count(b@) - (if b.at(tr, tf) is Some {
            1int
        } else {
            0int
        }),
{
    lemma_idx_injective();
    let b1 = b@.update(idx(fr, ff), None);
    lemma_piece_count_update(b@, idx(fr, ff), None);
    lemma_piece_count_update(b1, idx(tr, tf), b@[idx(fr, ff)]);
}

} // verus!
