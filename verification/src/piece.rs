//! Pieces and their purely geometric movement rules.
//!
//! A square is a pair `(rank, file)`, each coordinate in `[0, 8)`, with
//! rank 0 being White's back rank. The shape predicates here ignore board
//! occupancy entirely; obstruction and capture rules live in `game`.

use vstd::prelude::*;

verus! {

/// A square as `(rank, file)`, valid when both coordinates are below 8.
pub type Pair = (usize, usize);

#[derive(PartialEq, Eq, Copy, Clone, Debug, Structural)]
pub enum Colour {
    Black,
    White,
}

/// The other colour.
pub open spec fn opposite(c: Colour) -> Colour {
    match c {
        Colour::Black => Colour::White,
        Colour::White => Colour::Black,
    }
}

impl Default for Colour {
    /// White moves first, so White is the default colour.
    fn default() -> (r: Self)
        ensures
            r == Colour::White,
    {
        Colour::White
    }
}

impl Colour {
    /// Toggle the colour in place.
    pub fn change_colour(&mut self)
        ensures
            *final(self) == opposite(*old(self)),
    {
        *self = match self {
            Colour::Black => Colour::White,
            Colour::White => Colour::Black,
        };
    }
}

#[derive(PartialEq, Eq, Copy, Clone, Debug, Structural)]
pub enum PossiblePieces {
    Bishop,
    King,
    Knight,
    Pawn,
    Queen,
    Rook,
}

/// A piece: a kind together with a colour.
#[derive(PartialEq, Eq, Copy, Clone, Debug, Structural)]
pub struct Piece {
    pub kind: PossiblePieces,
    pub colour: Colour,
}

/// Both coordinates of a square lie on the 8x8 board.
pub open spec fn on_board(r: int, f: int) -> bool {
    0 <= r < 8 && 0 <= f < 8
}

/// Absolute difference of two coordinates.
pub open spec fn delta(a: int, b: int) -> int {
    if a >= b {
        a - b
    } else {
        b - a
    }
}

/// Bishop shape: the two squares lie on a common diagonal. The test is by
/// equal coordinate sums or differences and is deliberately true for
/// identical squares; callers guard origin != destination separately.
pub open spec fn diag_shape(fr: int, ff: int, tr: int, tf: int) -> bool {
    fr + tf == ff + tr || fr + ff == tr + tf
}

/// Rook shape: same rank or same file, and not the identical square.
pub open spec fn straight_shape(fr: int, ff: int, tr: int, tf: int) -> bool {
    !(fr == tr && ff == tf) && (fr == tr || ff == tf)
}

/// Knight shape: the absolute rank and file deltas are 1 and 2 in either
/// order.
pub open spec fn knight_shape(fr: int, ff: int, tr: int, tf: int) -> bool {
    (delta(fr, tr) == 1 && delta(ff, tf) == 2) || (delta(fr, tr) == 2 && delta(ff, tf) == 1)
}

/// King shape: one step in any direction, or a castling-shaped move (from
/// file 4 on rank 0 or 7, two files sideways along the same rank). The
/// castling shape only passes the shape gate; real castling legality is
/// re-checked against the board.
pub open spec fn king_shape(fr: int, ff: int, tr: int, tf: int) -> bool {
    !(fr == tr && ff == tf) && ((delta(fr, tr) <= 1 && delta(ff, tf) <= 1) || ((fr == 0 || fr == 7)
        && ff == 4 && fr == tr && delta(ff, tf) == 2))
}

/// The rank direction a pawn of the given colour advances in.
pub open spec fn pawn_dir(c: Colour) -> int {
    match c {
        Colour::White => 1,
        Colour::Black => -1,
    }
}

/// The rank a pawn of the given colour starts on.
pub open spec fn pawn_start(c: Colour) -> int {
    match c {
        Colour::White => 1,
        Colour::Black => 6,
    }
}

/// Pawn shape: a file change must be a diagonal capture shape (one file
/// sideways, one rank forward in the colour's direction); on an unchanged
/// file, one rank forward, or two from the colour's starting rank.
pub open spec fn pawn_shape(c: Colour, fr: int, ff: int, tr: int, tf: int) -> bool {
    if ff != tf {
        delta(ff, tf) == 1 && tr == fr + pawn_dir(c)
    } else if fr == pawn_start(c) {
        tr == fr + pawn_dir(c) || tr == fr + 2 * pawn_dir(c)
    } else {
        tr == fr + pawn_dir(c)
    }
}

/// Shape legality of a move for a piece: both squares on the board, origin
/// and destination distinct, and the kind-specific geometric rule holds.
/// Board occupancy plays no role here.
pub open spec fn shape_legal(p: Piece, fr: int, ff: int, tr: int, tf: int) -> bool {
    &&& on_board(fr, ff)
    &&& on_board(tr, tf)
    &&& !(fr == tr && ff == tf)
    &&& match p.kind {
        PossiblePieces::Bishop => diag_shape(fr, ff, tr, tf),
        PossiblePieces::Rook => straight_shape(fr, ff, tr, tf),
        PossiblePieces::Knight => knight_shape(fr, ff, tr, tf),
        PossiblePieces::King => king_shape(fr, ff, tr, tf),
        PossiblePieces::Queen => straight_shape(fr, ff, tr, tf) || diag_shape(fr, ff, tr, tf),
        PossiblePieces::Pawn => pawn_shape(p.colour, fr, ff, tr, tf),
    }
}

/// Uppercase letter for a piece kind, as used in FEN for White.
pub open spec fn rep_char(k: PossiblePieces) -> char {
    match k {
        PossiblePieces::Bishop => 'B',
        PossiblePieces::Rook => 'R',
        PossiblePieces::Knight => 'N',
        PossiblePieces::King => 'K',
        PossiblePieces::Queen => 'Q',
        PossiblePieces::Pawn => 'P',
    }
}

/// Lowercase letter for a piece kind, as used in FEN for Black.
pub open spec fn rep_char_lower(k: PossiblePieces) -> char {
    match k {
        PossiblePieces::Bishop => 'b',
        PossiblePieces::Rook => 'r',
        PossiblePieces::Knight => 'n',
        PossiblePieces::King => 'k',
        PossiblePieces::Queen => 'q',
        PossiblePieces::Pawn => 'p',
    }
}

/// FEN letter of a piece: uppercase for White, lowercase for Black.
pub open spec fn fen_char(p: Piece) -> char {
    match p.colour {
        Colour::White => rep_char(p.kind),
        Colour::Black => rep_char_lower(p.kind),
    }
}

impl Piece {
    // The private shape helpers assume both squares are on the board; the
    // public entry point `valid_move` establishes that before dispatching.
    fn diag_move(from_pos: Pair, to_pos: Pair) -> (r: bool)
        requires
            on_board(from_pos.0 as int, from_pos.1 as int),
            on_board(to_pos.0 as int, to_pos.1 as int),
        ensures
            r == diag_shape(from_pos.0 as int, from_pos.1 as int, to_pos.0 as int, to_pos.1 as int),
    {
        (from_pos.0 + to_pos.1) == (from_pos.1 + to_pos.0) || (from_pos.0 + from_pos.1 == to_pos.0
            + to_pos.1)
    }

    fn rooks_move(from_pos: Pair, to_pos: Pair) -> (r: bool)
        ensures
            r == straight_shape(
                from_pos.0 as int,
                from_pos.1 as int,
                to_pos.0 as int,
                to_pos.1 as int,
            ),
    {
        !(from_pos.0 == to_pos.0 && from_pos.1 == to_pos.1) && (from_pos.0 == to_pos.0 || from_pos.1
            == to_pos.1)
    }

    fn knights_move(from_pos: Pair, to_pos: Pair) -> (r: bool)
        ensures
            r == knight_shape(
                from_pos.0 as int,
                from_pos.1 as int,
                to_pos.0 as int,
                to_pos.1 as int,
            ),
    {
        let hori_diff = if from_pos.0 >= to_pos.0 {
            from_pos.0 - to_pos.0
        } else {
            to_pos.0 - from_pos.0
        };
        let vert_diff = if from_pos.1 >= to_pos.1 {
            from_pos.1 - to_pos.1
        } else {
            to_pos.1 - from_pos.1
        };
        (hori_diff == 1 && vert_diff == 2) || (hori_diff == 2 && vert_diff == 1)
    }

    fn pawns_move(from_pos: Pair, to_pos: Pair, colour: Colour) -> (r: bool)
        requires
            on_board(from_pos.0 as int, from_pos.1 as int),
            on_board(to_pos.0 as int, to_pos.1 as int),
        ensures
            r == pawn_shape(
                colour,
                from_pos.0 as int,
                from_pos.1 as int,
                to_pos.0 as int,
                to_pos.1 as int,
            ),
    {
        if from_pos.1 != to_pos.1 {
            let file_diff = if from_pos.1 >= to_pos.1 {
                from_pos.1 - to_pos.1
            } else {
                to_pos.1 - from_pos.1
            };
            if file_diff != 1 {
                false
            } else if colour == Colour::Black {
                to_pos.0 + 1 == from_pos.0
            } else {
                from_pos.0 + 1 == to_pos.0
            }
        } else if colour == Colour::Black {
            if from_pos.0 == 6 {
                to_pos.0 + 1 == from_pos.0 || to_pos.0 + 2 == from_pos.0
            } else {
                to_pos.0 + 1 == from_pos.0
            }
        } else {
            if from_pos.0 == 1 {
                to_pos.0 == from_pos.0 + 1 || to_pos.0 == from_pos.0 + 2
            } else {
                to_pos.0 == from_pos.0 + 1
            }
        }
    }

    fn kings_move(from_pos: Pair, to_pos: Pair) -> (r: bool)
        requires
            on_board(from_pos.0 as int, from_pos.1 as int),
            on_board(to_pos.0 as int, to_pos.1 as int),
        ensures
            r == king_shape(from_pos.0 as int, from_pos.1 as int, to_pos.0 as int, to_pos.1 as int),
    {
        if from_pos.0 == to_pos.0 && from_pos.1 == to_pos.1 {
            return false;
        }
        let rank_diff = if from_pos.0 >= to_pos.0 {
            from_pos.0 - to_pos.0
        } else {
            to_pos.0 - from_pos.0
        };
        let file_diff = if from_pos.1 >= to_pos.1 {
            from_pos.1 - to_pos.1
        } else {
            to_pos.1 - from_pos.1
        };
        (rank_diff <= 1 && file_diff <= 1) || ((from_pos.0 == 0 || from_pos.0 == 7) && from_pos.1
            == 4 && from_pos.0 == to_pos.0 && file_diff == 2)
    }

    pub fn new(p: PossiblePieces, c: Colour) -> (r: Self)
        ensures
            r == (Piece { kind: p, colour: c }),
    {
        Piece { kind: p, colour: c }
    }

    /// Shape-only movement check: no inspection of board occupancy, and
    /// false whenever a square is off the board or the move goes nowhere.
    pub fn valid_move(&self, from_pos: Pair, to_pos: Pair) -> (r: bool)
        ensures
            r == shape_legal(
                *self,
                from_pos.0 as int,
                from_pos.1 as int,
                to_pos.0 as int,
                to_pos.1 as int,
            ),
    {
        if !(from_pos.0 < 8 && from_pos.1 < 8) || !(to_pos.0 < 8 && to_pos.1 < 8) {
            return false;
        }
        if from_pos.0 == to_pos.0 && from_pos.1 == to_pos.1 {
            return false;
        }
        match self.kind {
            PossiblePieces::Bishop => Self::diag_move(from_pos, to_pos),
            PossiblePieces::Rook => Self::rooks_move(from_pos, to_pos),
            PossiblePieces::Knight => Self::knights_move(from_pos, to_pos),
            PossiblePieces::King => Self::kings_move(from_pos, to_pos),
            PossiblePieces::Queen => Self::rooks_move(from_pos, to_pos) || Self::diag_move(
                from_pos,
                to_pos,
            ),
            PossiblePieces::Pawn => Self::pawns_move(from_pos, to_pos, self.colour),
        }
    }

    fn to_rep(&self) -> (r: char)
        ensures
            r == rep_char(self.kind),
    {
        match self.kind {
            PossiblePieces::Bishop => 'B',
            PossiblePieces::Rook => 'R',
            PossiblePieces::Knight => 'N',
            PossiblePieces::King => 'K',
            PossiblePieces::Queen => 'Q',
            PossiblePieces::Pawn => 'P',
        }
    }

    /// FEN letter of this piece: uppercase for White, lowercase for Black.
    pub fn to_fen_rep(&self) -> (r: char)
        ensures
            r == fen_char(*self),
    {
        match self.colour {
            Colour::White => self.to_rep(),
            Colour::Black => match self.kind {
                PossiblePieces::Bishop => 'b',
                PossiblePieces::Rook => 'r',
                PossiblePieces::Knight => 'n',
                PossiblePieces::King => 'k',
                PossiblePieces::Queen => 'q',
                PossiblePieces::Pawn => 'p',
            },
        }
    }

    /// Algebraic-notation letter: the uppercase kind letter, or nothing for
    /// a pawn.
    pub fn to_alg_rep(&self) -> (r: Option<char>)
        ensures
            r == if self.kind is Pawn {
                Option::<char>::None
            } else {
                Option::<char>::Some(rep_char(self.kind))
            },
    {
        let rep = self.to_rep();
        if rep == 'P' {
            None
        } else {
            Some(rep)
        }
    }

    /// A copy of this piece with the colour toggled. Used at setup time to
    /// mirror White's rows into Black's.
    pub fn change_colour(&self) -> (r: Self)
        ensures
            r.kind == self.kind,
            r.colour == opposite(self.colour),
    {
        match self.colour {
            Colour::Black => Piece { kind: self.kind, colour: Colour::White },
            Colour::White => Piece { kind: self.kind, colour: Colour::Black },
        }
    }

    pub fn colour(&self) -> (r: Colour)
        ensures
            r == self.colour,
    {
        self.colour
    }

    pub fn poss_piece(&self) -> (r: PossiblePieces)
        ensures
            r == self.kind,
    {
        self.kind
    }
}

/// No piece may stand still: a move whose origin and destination coincide
/// is never shape-legal, for any piece and any square.
pub proof fn lemma_no_null_move(p: Piece, r: int, f: int)
    ensures
        !shape_legal(p, r, f, r, f),
{
}

/// Rook, Bishop and Queen shape legality is symmetric in origin and
/// destination.
pub proof fn lemma_slider_shape_symmetric(p: Piece, ar: int, af: int, br: int, bf: int)
    requires
        p.kind is Rook || p.kind is Bishop || p.kind is Queen,
    ensures
        shape_legal(p, ar, af, br, bf) == shape_legal(p, br, bf, ar, af),
{
}

/// Knight shape legality depends only on the unordered pair of absolute
/// rank and file deltas: two on-board moves whose delta pairs agree, in
/// either order, are equally shape-legal.
pub proof fn lemma_knight_shape_multiset(
    p: Piece,
    ar: int,
    af: int,
    br: int,
    bf: int,
    cr: int,
    cf: int,
    dr: int,
    df: int,
)
    requires
        p.kind is Knight,
        on_board(ar, af),
        on_board(br, bf),
        on_board(cr, cf),
        on_board(dr, df),
        (delta(ar, br) == delta(cr, dr) && delta(af, bf) == delta(cf, df)) || (delta(ar, br)
            == delta(cf, df) && delta(af, bf) == delta(cr, dr)),
    ensures
        shape_legal(p, ar, af, br, bf) == shape_legal(p, cr, cf, dr, df),
{
}

} // verus!
