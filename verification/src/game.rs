//! The game-state layer: holds the board, side to move, castling rights
//! and the move counter, and decides move legality by composing the shape
//! predicates of `piece` with board-aware obstruction, capture and
//! castling checks.

use crate::board::{initial_board, moved, Board};
use crate::piece::{
    delta, on_board, opposite, shape_legal, Colour, Pair, Piece, PossiblePieces,
};
use vstd::prelude::*;
use vstd::string::StringSliceAdditionalSpecFns;

verus! {

/// The one error of the legality pipeline: the proposed move is illegal.
/// No sub-classification of why is reported.
#[derive(PartialEq, Eq, Copy, Clone, Debug, Structural)]
pub struct IllegalMove;

/// The four castling-rights flags. Each flips from true to false at most
/// once in a game and is never reset.
#[derive(PartialEq, Eq, Copy, Clone, Debug, Structural)]
pub struct CastleRights {
    pub white_queenside: bool,
    pub white_kingside: bool,
    pub black_queenside: bool,
    pub black_kingside: bool,
}

/// A game in progress: the board, whose turn it is, the terminal flag,
/// the full-move counter and the castling rights.
pub struct Game {
    pub board: Board,
    pub curr_player: Colour,
    pub mate: bool,
    pub curr_move: u32,
    pub castles: CastleRights,
}

/// The colour of a square's occupant, if any.
pub open spec fn occupant_colour(sq: Option<Piece>) -> Option<Colour> {
    match sq {
        Some(p) => Some(p.colour),
        None => None,
    }
}

/// The two squares hold occupants of differing colours; an empty square
/// differs from every occupied one, and two empty squares do not differ.
pub open spec fn spec_diff_colour(b: Board, fr: int, ff: int, tr: int, tf: int) -> bool {
    occupant_colour(b.at(fr, ff)) != occupant_colour(b.at(tr, tf))
}

/// No piece stands strictly between the two squares along their shared
/// rank, or, for squares on different ranks, along the destination file.
pub open spec fn straight_clear(b: Board, fr: int, ff: int, tr: int, tf: int) -> bool {
    if fr == tr {
        forall|f: int| (ff < f < tf) || (tf < f < ff) ==> #[trigger] b.at(fr, f) is None
    } else {
        forall|r: int| (fr < r < tr) || (tr < r < fr) ==> #[trigger] b.at(r, tf) is None
    }
}

/// The straight-move check: both squares on the board, a rook shape (same
/// rank or same file), a clear path strictly between, and differing
/// colours at the two ends.
pub open spec fn spec_check_straight(b: Board, fr: int, ff: int, tr: int, tf: int) -> bool {
    &&& on_board(fr, ff)
    &&& on_board(tr, tf)
    &&& (fr == tr || ff == tf)
    &&& straight_clear(b, fr, ff, tr, tf)
    &&& spec_diff_colour(b, fr, ff, tr, tf)
}

/// The two squares lie on a proper diagonal: distinct ranks and equal
/// absolute rank and file deltas.
pub open spec fn diag_is(fr: int, ff: int, tr: int, tf: int) -> bool {
    fr != tr && delta(fr, tr) == delta(ff, tf)
}

/// Rank of the lower-rank endpoint of a diagonal.
pub open spec fn diag_lo_r(fr: int, tr: int) -> int {
    if fr < tr {
        fr
    } else {
        tr
    }
}

/// File of the lower-rank endpoint of a diagonal.
pub open spec fn diag_lo_f(fr: int, ff: int, tr: int, tf: int) -> int {
    if fr < tr {
        ff
    } else {
        tf
    }
}

/// Whether the file grows as the rank grows along the move.
pub open spec fn diag_rising(fr: int, ff: int, tr: int, tf: int) -> bool {
    (fr < tr) == (ff < tf)
}

/// The i-th square on the diagonal walk, counted from the lower-rank
/// endpoint.
pub open spec fn diag_between(b: Board, fr: int, ff: int, tr: int, tf: int, i: int) -> Option<
    Piece,
> {
    b.at(
        diag_lo_r(fr, tr) + i,
        if diag_rising(fr, ff, tr, tf) {
            diag_lo_f(fr, ff, tr, tf) + i
        } else {
            diag_lo_f(fr, ff, tr, tf) - i
        },
    )
}

/// No piece stands strictly between the two squares along their diagonal.
pub open spec fn diag_clear(b: Board, fr: int, ff: int, tr: int, tf: int) -> bool {
    forall|i: int| 0 < i < delta(fr, tr) ==> #[trigger] diag_between(b, fr, ff, tr, tf, i) is None
}

/// The diagonal-move check: both squares on the board, a proper diagonal,
/// a clear path strictly between, and differing colours at the two ends.
pub open spec fn spec_check_diag(b: Board, fr: int, ff: int, tr: int, tf: int) -> bool {
    &&& on_board(fr, ff)
    &&& on_board(tr, tf)
    &&& diag_is(fr, ff, tr, tf)
    &&& diag_clear(b, fr, ff, tr, tf)
    &&& spec_diff_colour(b, fr, ff, tr, tf)
}

/// The kind-specific path and capture check, assuming the shape gate has
/// already passed (it does not re-check the shape): sliders need a clear
/// path, knights only differing colours, kings are clamped back to single
/// steps (which rejects the castling-shaped jump from this check), and
/// pawns advance only onto empty squares and capture only onto occupied
/// ones.
pub open spec fn spec_check_non_castle(b: Board, p: Piece, fr: int, ff: int, tr: int, tf: int) -> bool {
    match p.kind {
        PossiblePieces::Rook => spec_check_straight(b, fr, ff, tr, tf),
        PossiblePieces::Bishop => spec_check_diag(b, fr, ff, tr, tf),
        PossiblePieces::Knight => on_board(fr, ff) && on_board(tr, tf) && spec_diff_colour(
            b,
            fr,
            ff,
            tr,
            tf,
        ),
        PossiblePieces::King => (spec_check_straight(b, fr, ff, tr, tf) || spec_check_diag(
            b,
            fr,
            ff,
            tr,
            tf,
        )) && delta(fr, tr) <= 1 && delta(ff, tf) <= 1,
        PossiblePieces::Queen => spec_check_straight(b, fr, ff, tr, tf) || spec_check_diag(
            b,
            fr,
            ff,
            tr,
            tf,
        ),
        PossiblePieces::Pawn => (spec_check_straight(b, fr, ff, tr, tf) && b.at(tr, tf) is None)
            || (spec_check_diag(b, fr, ff, tr, tf) && b.at(tr, tf) is Some),
    }
}

impl Game {
    /// The game state is well formed when its board is.
    pub open spec fn wf(&self) -> bool {
        self.board.wf()
    }

    fn in_bounds(pos: Pair) -> (r: bool)
        ensures
            r == on_board(pos.0 as int, pos.1 as int),
    {
        pos.0 < 8 && pos.1 < 8
    }

    /// Whether the occupants of the two squares differ in colour (an empty
    /// square counts as differing from an occupied one).
    fn diff_colour(&self, pos1: Pair, pos2: Pair) -> (r: bool)
        requires
            self.wf(),
            on_board(pos1.0 as int, pos1.1 as int),
            on_board(pos2.0 as int, pos2.1 as int),
        ensures
            r == spec_diff_colour(
                self.board,
                pos1.0 as int,
                pos1.1 as int,
                pos2.0 as int,
                pos2.1 as int,
            ),
    {
        let c1 = match self.board.piece_at(pos1) {
            Some(p) => Some(p.colour()),
            None => None,
        };
        let c2 = match self.board.piece_at(pos2) {
            Some(p) => Some(p.colour()),
            None => None,
        };
        match (c1, c2) {
            (Some(a), Some(b)) => a != b,
            (None, None) => false,
            _ => true,
        }
    }

    /// The straight path and capture check. The path scanned is the shared
    /// rank, or the destination file; a move that is neither straight
    /// shape fails outright.
    pub fn check_straight_move(&self, from_pos: Pair, to_pos: Pair) -> (r: bool)
        requires
            self.wf(),
        ensures
            r == spec_check_straight(
                self.board,
                from_pos.0 as int,
                from_pos.1 as int,
                to_pos.0 as int,
                to_pos.1 as int,
            ),
    {
        if !Self::in_bounds(from_pos) || !Self::in_bounds(to_pos) {
            return false;
        }
        if from_pos.0 == to_pos.0 {
            let lo = if from_pos.1 <= to_pos.1 {
                from_pos.1
            } else {
                to_pos.1
            };
            let hi = if from_pos.1 <= to_pos.1 {
                to_pos.1
            } else {
                from_pos.1
            };
            let mut f = lo + 1;
            while f < hi
                invariant
                    self.wf(),
                    on_board(from_pos.0 as int, from_pos.1 as int),
                    on_board(to_pos.0 as int, to_pos.1 as int),
                    from_pos.0 == to_pos.0,
                    lo == if from_pos.1 <= to_pos.1 {
                        from_pos.1
                    } else {
                        to_pos.1
                    },
                    hi == if from_pos.1 <= to_pos.1 {
                        to_pos.1
                    } else {
                        from_pos.1
                    },
                    lo < f,
                    f <= hi + 1,
                    forall|x: int| lo < x < f ==> #[trigger] self.board.at(
                        from_pos.0 as int,
                        x,
                    ) is None,
                decreases hi - f,
            {
                if self.board.piece_at((from_pos.0, f)).is_some() {
                    proof {
                        if straight_clear(
                            self.board,
                            from_pos.0 as int,
                            from_pos.1 as int,
                            to_pos.0 as int,
                            to_pos.1 as int,
                        ) {
                            assert(self.board.at(from_pos.0 as int, f as int) is None);
                        }
                    }
                    return false;
                }
                f += 1;
            }
        } else if from_pos.1 == to_pos.1 {
            let lo = if from_pos.0 <= to_pos.0 {
                from_pos.0
            } else {
                to_pos.0
            };
            let hi = if from_pos.0 <= to_pos.0 {
                to_pos.0
            } else {
                from_pos.0
            };
            let mut r = lo + 1;
            while r < hi
                invariant
                    self.wf(),
                    on_board(from_pos.0 as int, from_pos.1 as int),
                    on_board(to_pos.0 as int, to_pos.1 as int),
                    from_pos.0 != to_pos.0,
                    from_pos.1 == to_pos.1,
                    lo == if from_pos.0 <= to_pos.0 {
                        from_pos.0
                    } else {
                        to_pos.0
                    },
                    hi == if from_pos.0 <= to_pos.0 {
                        to_pos.0
                    } else {
                        from_pos.0
                    },
                    lo < r,
                    r <= hi + 1,
                    forall|x: int| lo < x < r ==> #[trigger] self.board.at(
                        x,
                        to_pos.1 as int,
                    ) is None,
                decreases hi - r,
            {
                if self.board.piece_at((r, to_pos.1)).is_some() {
                    proof {
                        if straight_clear(
                            self.board,
                            from_pos.0 as int,
                            from_pos.1 as int,
                            to_pos.0 as int,
                            to_pos.1 as int,
                        ) {
                            assert(self.board.at(r as int, to_pos.1 as int) is None);
                        }
                    }
                    return false;
                }
                r += 1;
            }
        } else {
            return false;
        }
        self.diff_colour(from_pos, to_pos)
    }

    /// The diagonal path and capture check, walking the diagonal strictly
    /// between the two squares from the lower-rank endpoint; a move that
    /// is not a proper diagonal fails outright.
    pub fn check_diag_move(&self, from_pos: Pair, to_pos: Pair) -> (r: bool)
        requires
            self.wf(),
        ensures
            r == spec_check_diag(
                self.board,
                from_pos.0 as int,
                from_pos.1 as int,
                to_pos.0 as int,
                to_pos.1 as int,
            ),
    {
        if !Self::in_bounds(from_pos) || !Self::in_bounds(to_pos) {
            return false;
        }
        let rank_diff = if from_pos.0 >= to_pos.0 {
            from_pos.0 - to_pos.0
        } else {
            to_pos.0 - from_pos.0
        };
        let file_diff = if from_pos.1 >= to_pos.1 {
            from_pos.1 - to_pos.1
        } else {
            to_pos.1 - from_pos.1
        };
        if from_pos.0 == to_pos.0 || rank_diff != file_diff {
            return false;
        }
        let (lo_r, lo_f) = if from_pos.0 < to_pos.0 {
            (from_pos.0, from_pos.1)
        } else {
            (to_pos.0, to_pos.1)
        };
        let rising = (from_pos.0 < to_pos.0) == (from_pos.1 < to_pos.1);
        let ghost fr = from_pos.0 as int;
        let ghost ff = from_pos.1 as int;
        let ghost tr = to_pos.0 as int;
        let ghost tf = to_pos.1 as int;
        let mut i: usize = 1;
        while i < rank_diff
            invariant
                self.wf(),
                fr == from_pos.0 as int,
                ff == from_pos.1 as int,
                tr == to_pos.0 as int,
                tf == to_pos.1 as int,
                on_board(fr, ff),
                on_board(tr, tf),
                diag_is(fr, ff, tr, tf),
                rank_diff == delta(fr, tr),
                lo_r == diag_lo_r(fr, tr),
                lo_f == diag_lo_f(fr, ff, tr, tf),
                rising == diag_rising(fr, ff, tr, tf),
                1 <= i,
                i <= rank_diff,
                forall|j: int| 0 < j < i ==> #[trigger] diag_between(
                    self.board,
                    fr,
                    ff,
                    tr,
                    tf,
                    j,
                ) is None,
            decreases rank_diff - i,
        {
            proof {
                // The endpoint at the higher rank pins the file reached by
                // the walk, so every intermediate square is on the board.
                if rising {
                    assert(lo_f + rank_diff == if fr < tr {
                        tf
                    } else {
                        ff
                    });
                } else {
                    assert(lo_f - rank_diff == if fr < tr {
                        tf
                    } else {
                        ff
                    });
                }
            }
            let sq = if rising {
                (lo_r + i, lo_f + i)
            } else {
                (lo_r + i, lo_f - i)
            };
            if self.board.piece_at(sq).is_some() {
                proof {
                    assert(diag_between(self.board, fr, ff, tr, tf, i as int) is Some);
                    if diag_clear(self.board, fr, ff, tr, tf) {
                        assert(diag_between(self.board, fr, ff, tr, tf, i as int) is None);
                    }
                }
                return false;
            }
            i += 1;
        }
        self.diff_colour(from_pos, to_pos)
    }

    /// Knights ignore obstruction: only the differing-colour rule applies.
    pub fn check_knight_move(&self, from_pos: Pair, to_pos: Pair) -> (r: bool)
        requires
            self.wf(),
            on_board(from_pos.0 as int, from_pos.1 as int),
            on_board(to_pos.0 as int, to_pos.1 as int),
        ensures
            r == spec_diff_colour(
                self.board,
                from_pos.0 as int,
                from_pos.1 as int,
                to_pos.0 as int,
                to_pos.1 as int,
            ),
    {
        self.diff_colour(from_pos, to_pos)
    }

    /// The kind-specific path and capture check; assumes the shape gate
    /// has already accepted the move and so does not re-check shape.
    pub fn check_move_non_castle(&self, from_pos: Pair, to_pos: Pair, p: Piece) -> (r: bool)
        requires
            self.wf(),
            on_board(from_pos.0 as int, from_pos.1 as int),
            on_board(to_pos.0 as int, to_pos.1 as int),
        ensures
            r == spec_check_non_castle(
                self.board,
                p,
                from_pos.0 as int,
                from_pos.1 as int,
                to_pos.0 as int,
                to_pos.1 as int,
            ),
    {
        match p.poss_piece() {
            PossiblePieces::Rook => self.check_straight_move(from_pos, to_pos),
            PossiblePieces::Pawn => (self.check_straight_move(from_pos, to_pos)
                && self.board.piece_at(to_pos).is_none()) || (self.check_diag_move(
                from_pos,
                to_pos,
            ) && self.board.piece_at(to_pos).is_some()),
            PossiblePieces::King => {
                let rank_diff = if from_pos.0 >= to_pos.0 {
                    from_pos.0 - to_pos.0
                } else {
                    to_pos.0 - from_pos.0
                };
                let file_diff = if from_pos.1 >= to_pos.1 {
                    from_pos.1 - to_pos.1
                } else {
                    to_pos.1 - from_pos.1
                };
                (self.check_straight_move(from_pos, to_pos) || self.check_diag_move(
                    from_pos,
                    to_pos,
                )) && rank_diff <= 1 && file_diff <= 1
            },
            PossiblePieces::Queen => self.check_straight_move(from_pos, to_pos)
                || self.check_diag_move(from_pos, to_pos),
            PossiblePieces::Bishop => self.check_diag_move(from_pos, to_pos),
            PossiblePieces::Knight => self.check_knight_move(from_pos, to_pos),
        }
    }
}

/// The corner file the rook must stand on for a castling destination
/// file: file 0 for a queenside (file 2) destination, file 7 for a
/// kingside (file 6) one.
pub open spec fn castle_rook_from(tf: int) -> int {
    if tf == 2 {
        0
    } else {
        7
    }
}

/// The file the rook is relocated to on a successful castle: file 2 for
/// queenside, file 5 for kingside.
pub open spec fn castle_rook_to(tf: int) -> int {
    if tf == 2 {
        2
    } else {
        5
    }
}

/// Castling legality, in the coordinate sense: the origin holds a king
/// standing on file 4 of rank 0 or 7, the destination is on the same rank
/// at file 2 or 6, the matching corner holds a rook of the king's colour,
/// and the straight-move check accepts the king's two-file hop.
pub open spec fn spec_castle_ok(b: Board, fr: int, ff: int, tr: int, tf: int) -> bool {
    b.at(fr, ff) matches Some(k) && k.kind is King && (fr == 0 || fr == 7) && ff == 4 && fr == tr
        && (tf == 2 || tf == 6) && b.at(tr, castle_rook_from(tf)) == Some(
        Piece { kind: PossiblePieces::Rook, colour: k.colour },
    ) && spec_check_straight(b, fr, ff, tr, tf)
}

/// Rights after a move leaving the given square: vacating a corner
/// permanently revokes the matching flag, wherever the mover came from and
/// whatever it was; every other origin leaves the rights untouched.
pub open spec fn revoke_at(c: CastleRights, r: int, f: int) -> CastleRights {
    if r == 0 && f == 0 {
        CastleRights { white_queenside: false, ..c }
    } else if r == 0 && f == 7 {
        CastleRights { white_kingside: false, ..c }
    } else if r == 7 && f == 0 {
        CastleRights { black_queenside: false, ..c }
    } else if r == 7 && f == 7 {
        CastleRights { black_kingside: false, ..c }
    } else {
        c
    }
}

/// Rights after a colour castles: both of that colour's flags are
/// revoked together, whichever side was used.
pub open spec fn clear_colour(c: CastleRights, colour: Colour) -> CastleRights {
    match colour {
        Colour::White => CastleRights { white_queenside: false, white_kingside: false, ..c },
        Colour::Black => CastleRights { black_queenside: false, black_kingside: false, ..c },
    }
}

/// Rights may only be lost, never regained: every flag still held in `a`
/// was held in `b`.
pub open spec fn rights_leq(a: CastleRights, b: CastleRights) -> bool {
    &&& a.white_queenside ==> b.white_queenside
    &&& a.white_kingside ==> b.white_kingside
    &&& a.black_queenside ==> b.black_queenside
    &&& a.black_kingside ==> b.black_kingside
}

/// A proposed move is legal when the origin holds a piece, the piece's
/// shape rule accepts the geometry, and either the kind-specific path and
/// capture check or the castling fallback accepts it against the board.
/// Whose turn it is plays no role: legality never consults the side to
/// move.
pub open spec fn spec_move_legal(g: Game, fr: int, ff: int, tr: int, tf: int) -> bool {
    g.board.at(fr, ff) matches Some(p) && shape_legal(p, fr, ff, tr, tf) && (spec_check_non_castle(
        g.board,
        p,
        fr,
        ff,
        tr,
        tf,
    ) || spec_castle_ok(g.board, fr, ff, tr, tf))
}

/// A legal move is resolved through the castling fallback exactly when the
/// direct path and capture check fails: the direct check takes precedence.
pub open spec fn spec_resolves_as_castle(g: Game, fr: int, ff: int, tr: int, tf: int) -> bool {
    !(g.board.at(fr, ff) matches Some(p) && spec_check_non_castle(g.board, p, fr, ff, tr, tf))
}

/// The board after a successful move: the mover is relocated onto the
/// destination; a castle additionally relocates the corner rook first, so
/// a queenside king landing on file 2 overwrites the rook it just moved
/// there.
pub open spec fn spec_board_after(g: Game, fr: int, ff: int, tr: int, tf: int) -> Seq<
    Option<Piece>,
> {
    if spec_resolves_as_castle(g, fr, ff, tr, tf) {
        moved(moved(g.board@, tr, castle_rook_from(tf), tr, castle_rook_to(tf)), fr, ff, tr, tf)
    } else {
        moved(g.board@, fr, ff, tr, tf)
    }
}

/// The castling rights after a successful move: a castle revokes both of
/// the mover's flags, and any move leaving a corner square revokes that
/// corner's flag.
pub open spec fn spec_rights_after(g: Game, fr: int, ff: int, tr: int, tf: int) -> CastleRights {
    let base = if spec_resolves_as_castle(g, fr, ff, tr, tf) {
        clear_colour(
            g.castles,
            match g.board.at(fr, ff) {
                Some(p) => p.colour,
                None => Colour::White,
            },
        )
    } else {
        g.castles
    };
    revoke_at(base, fr, ff)
}

/// The full-move counter after a successful move: it counts up only when
/// play returns to White, that is after Black has moved, and sticks at its
/// maximum rather than wrapping.
pub open spec fn spec_next_counter(g: Game) -> u32 {
    if g.curr_player is Black && g.curr_move < u32::MAX {
        (g.curr_move + 1) as u32
    } else {
        g.curr_move
    }
}

impl Game {
    /// Castling check and handling in one step, as a fallback once the
    /// direct check has failed: verifies the coordinate conditions and, on
    /// success, relocates the rook and revokes both of the colour's
    /// castling rights. The king itself is not moved here. On failure
    /// nothing changes.
    pub fn check_castles(&mut self, from_pos: Pair, to_pos: Pair) -> (r: bool)
        requires
            old(self).wf(),
            on_board(from_pos.0 as int, from_pos.1 as int),
            on_board(to_pos.0 as int, to_pos.1 as int),
        ensures
            final(self).wf(),
            r == spec_castle_ok(
                old(self).board,
                from_pos.0 as int,
                from_pos.1 as int,
                to_pos.0 as int,
                to_pos.1 as int,
            ),
            !r ==> *final(self) == *old(self),
            r ==> final(self).board@ == moved(
                old(self).board@,
                to_pos.0 as int,
                castle_rook_from(to_pos.1 as int),
                to_pos.0 as int,
                castle_rook_to(to_pos.1 as int),
            ),
            r ==> final(self).castles == clear_colour(
                old(self).castles,
                old(self).board.at(from_pos.0 as int, from_pos.1 as int)->Some_0.colour,
            ),
            final(self).curr_player == old(self).curr_player,
            final(self).mate == old(self).mate,
            final(self).curr_move == old(self).curr_move,
            rights_leq(final(self).castles, old(self).castles),
    {
        let colour = match self.board.piece_at(from_pos) {
            Some(p) => {
                if !(p.poss_piece() == PossiblePieces::King) {
                    return false;
                }
                p.colour()
            },
            None => {
                return false;
            },
        };
        let end: usize = if to_pos.1 == 2 {
            0
        } else if to_pos.1 == 6 {
            7
        } else {
            return false;
        };
        let rook_ok = match self.board.piece_at((to_pos.0, end)) {
            Some(p) => p.poss_piece() == PossiblePieces::Rook && p.colour() == colour,
            None => false,
        };
        let ret = (from_pos.0 == 0 || from_pos.0 == 7) && from_pos.1 == 4 && from_pos.0 == to_pos.0
            && rook_ok && self.check_straight_move(from_pos, to_pos);
        if ret {
            let rook_to: usize = if end == 0 {
                2
            } else {
                5
            };
            self.board.move_piece((to_pos.0, end), (to_pos.0, rook_to));
            if colour == Colour::White {
                self.castles.white_queenside = false;
                self.castles.white_kingside = false;
            } else {
                self.castles.black_queenside = false;
                self.castles.black_kingside = false;
            }
        }
        ret
    }

    /// The castling fallback of the pipeline; forwards to `check_castles`,
    /// which both checks and applies the rook relocation and the rights
    /// revocation.
    pub fn handle_castles(&mut self, from_pos: Pair, to_pos: Pair) -> (r: bool)
        requires
            old(self).wf(),
            on_board(from_pos.0 as int, from_pos.1 as int),
            on_board(to_pos.0 as int, to_pos.1 as int),
        ensures
            final(self).wf(),
            r == spec_castle_ok(
                old(self).board,
                from_pos.0 as int,
                from_pos.1 as int,
                to_pos.0 as int,
                to_pos.1 as int,
            ),
            !r ==> *final(self) == *old(self),
            r ==> final(self).board@ == moved(
                old(self).board@,
                to_pos.0 as int,
                castle_rook_from(to_pos.1 as int),
                to_pos.0 as int,
                castle_rook_to(to_pos.1 as int),
            ),
            r ==> final(self).castles == clear_colour(
                old(self).castles,
                old(self).board.at(from_pos.0 as int, from_pos.1 as int)->Some_0.colour,
            ),
            final(self).curr_player == old(self).curr_player,
            final(self).mate == old(self).mate,
            final(self).curr_move == old(self).curr_move,
            rights_leq(final(self).castles, old(self).castles),
    {
        self.check_castles(from_pos, to_pos)
    }

    /// Revoke the castling-rights flag matching a vacated corner square,
    /// if the square is one of the four corners; any other origin leaves
    /// the rights unchanged. The test is purely coordinate-based: it does
    /// not ask why the square was vacated.
    pub fn update_rook_castles(&mut self, pos: Pair) -> (r: bool)
        ensures
            r == true,
            final(self).castles == revoke_at(old(self).castles, pos.0 as int, pos.1 as int),
            final(self).board == old(self).board,
            final(self).curr_player == old(self).curr_player,
            final(self).mate == old(self).mate,
            final(self).curr_move == old(self).curr_move,
            rights_leq(final(self).castles, old(self).castles),
    {
        if pos.0 == 0 && pos.1 == 0 {
            self.castles.white_queenside = false;
        } else if pos.0 == 0 && pos.1 == 7 {
            self.castles.white_kingside = false;
        } else if pos.0 == 7 && pos.1 == 0 {
            self.castles.black_queenside = false;
        } else if pos.0 == 7 && pos.1 == 7 {
            self.castles.black_kingside = false;
        }
        true
    }

    /// The name of the side to move.
    pub fn player(&self) -> (r: &str)
        ensures
            self.curr_player is White ==> r@ == "player 1"@,
            self.curr_player is Black ==> r@ == "player 2"@,
    {
        match self.curr_player {
            Colour::White => "player 1",
            Colour::Black => "player 2",
        }
    }

    /// Pass the turn to the other side.
    pub fn change_colour(&mut self)
        ensures
            final(self).curr_player == opposite(old(self).curr_player),
            final(self).board == old(self).board,
            final(self).mate == old(self).mate,
            final(self).curr_move == old(self).curr_move,
            final(self).castles == old(self).castles,
    {
        self.curr_player.change_colour();
    }

    /// Check detection is an unintegrated extension point: it always
    /// reports that there is no check.
    pub fn check_checks(&self) -> (r: bool)
        ensures
            r == false,
    {
        false
    }

    /// A fresh game: the standard initial position, White to move, an
    /// untouched rights vector and the move counter at one.
    pub fn new_game() -> (g: Game)
        ensures
            g.wf(),
            g.board@ == initial_board(),
            g.curr_player == Colour::White,
            g.mate == false,
            g.curr_move == 1,
            g.castles == (CastleRights {
                white_queenside: true,
                white_kingside: true,
                black_queenside: true,
                black_kingside: true,
            }),
    {
        Game::default()
    }

    /// The whole legality pipeline, applied atomically: the shape gate,
    /// then the kind-specific path and capture check, then the castling
    /// fallback; on success the mover is relocated (overwriting the
    /// destination), corner-origin rights are revoked, the turn flips and
    /// the counter advances when play returns to White. A rejected move
    /// changes nothing at all.
    pub fn handle_move(&mut self, from_pos: Pair, to_pos: Pair) -> (r: Result<(), IllegalMove>)
        requires
            old(self).wf(),
        ensures
            final(self).wf(),
            (r is Ok) == spec_move_legal(
                *old(self),
                from_pos.0 as int,
                from_pos.1 as int,
                to_pos.0 as int,
                to_pos.1 as int,
            ),
            r is Err ==> *final(self) == *old(self),
            r is Ok ==> final(self).board@ == spec_board_after(
                *old(self),
                from_pos.0 as int,
                from_pos.1 as int,
                to_pos.0 as int,
                to_pos.1 as int,
            ),
            r is Ok ==> final(self).castles == spec_rights_after(
                *old(self),
                from_pos.0 as int,
                from_pos.1 as int,
                to_pos.0 as int,
                to_pos.1 as int,
            ),
            r is Ok ==> final(self).curr_player == opposite(old(self).curr_player),
            r is Ok ==> final(self).curr_move == spec_next_counter(*old(self)),
            final(self).mate == old(self).mate,
            rights_leq(final(self).castles, old(self).castles),
    {
        if !Self::in_bounds(from_pos) || !Self::in_bounds(to_pos) {
            return Err(IllegalMove);
        }
        let p = match self.board.piece_at(from_pos) {
            Some(p) => p,
            None => {
                return Err(IllegalMove);
            },
        };
        if !p.valid_move(from_pos, to_pos) {
            return Err(IllegalMove);
        }
        let direct = self.check_move_non_castle(from_pos, to_pos, p);
        if !direct {
            if !self.handle_castles(from_pos, to_pos) {
                return Err(IllegalMove);
            }
        }
        self.board.move_piece(from_pos, to_pos);
        self.update_rook_castles(from_pos);
        self.curr_player.change_colour();
        if self.curr_player == Colour::White {
            if self.curr_move < u32::MAX {
                self.curr_move = self.curr_move + 1;
            }
        }
        Ok(())
    }
}

impl Default for Game {
    /// A fresh game, as `new_game` describes it.
    fn default() -> (g: Game)
        ensures
            g.wf(),
            g.board@ == initial_board(),
            g.curr_player == Colour::White,
            g.mate == false,
            g.curr_move == 1,
            g.castles == (CastleRights {
                white_queenside: true,
                white_kingside: true,
                black_queenside: true,
                black_kingside: true,
            }),
    {
        Game {
            board: Board::default(),
            curr_player: Colour::default(),
            mate: false,
            curr_move: 1,
            castles: CastleRights {
                white_queenside: true,
                white_kingside: true,
                black_queenside: true,
                black_kingside: true,
            },
        }
    }
}

/// Some piece of the colour opposed to `colour` stands on a square from
/// which the kind-specific path and capture check accepts a move onto the
/// given square. The shape gate is not consulted here.
pub open spec fn spec_square_attacked(g: Game, sr: int, sf: int, colour: Colour) -> bool {
    exists|r: int, f: int|
        #[trigger] g.board.at(r, f) matches Some(p) && on_board(r, f) && p.colour != colour
            && spec_check_non_castle(g.board, p, r, f, sr, sf)
}

/// First byte position at or after `i` holding a space, or the length of
/// the sequence if there is none.
pub open spec fn token_end(s: Seq<u8>, i: int) -> int
    decreases s.len() - i,
{
    if 0 <= i < s.len() {
        if s[i] == 32 {
            i
        } else {
            token_end(s, i + 1)
        }
    } else {
        s.len() as int
    }
}

/// ASCII lowercasing of a single byte.
pub open spec fn lower_byte(b: u8) -> u8 {
    if 65 <= b <= 90 {
        (b + 32) as u8
    } else {
        b
    }
}

/// A square token: exactly two bytes, a file letter (case-insensitive,
/// `a` through `h`) followed by a rank digit (`1` through `8`); yields the
/// zero-indexed `(rank, file)` pair, or nothing for any other token.
pub open spec fn spec_parse_square(t: Seq<u8>) -> Option<Pair> {
    if t.len() == 2 && 49 <= t[1] <= 56 && 97 <= lower_byte(t[0]) <= 104 {
        Some((((t[1] - 49) as usize), ((lower_byte(t[0]) - 97) as usize)))
    } else {
        None
    }
}

/// A move request: of the space-separated tokens of the line, the first
/// must be the origin square and the third the destination square (the
/// second, conventionally a dash, is ignored); anything else is rejected.
pub open spec fn spec_parse_move(s: Seq<u8>) -> Option<(Pair, Pair)> {
    let e1 = token_end(s, 0);
    if e1 == s.len() {
        None
    } else {
        let e2 = token_end(s, e1 + 1);
        if e2 == s.len() {
            None
        } else {
            let e3 = token_end(s, e2 + 1);
            match (spec_parse_square(s.subrange(0, e1)), spec_parse_square(
                s.subrange(e2 + 1, e3),
            )) {
                (Some(a), Some(b)) => Some((a, b)),
                _ => None,
            }
        }
    }
}

/// Positions at or after `i` scan no earlier than `i` and never past the
/// end of the sequence.
pub proof fn lemma_token_end_range(s: Seq<u8>, i: int)
    requires
        0 <= i <= s.len(),
    ensures
        i <= token_end(s, i) <= s.len(),
    decreases s.len() - i,
{
    if i < s.len() && s[i] != 32 {
        lemma_token_end_range(s, i + 1);
    }
}

/// Scan for the next space at or after `start`.
fn scan_token_end(bytes: &[u8], start: usize) -> (e: usize)
    requires
        start <= bytes@.len(),
    ensures
        e == token_end(bytes@, start as int),
        start <= e <= bytes@.len(),
{
    let mut cur = start;
    while cur < bytes.len() && bytes[cur] != 32
        invariant
            start <= cur <= bytes@.len(),
            token_end(bytes@, start as int) == token_end(bytes@, cur as int),
        decreases bytes@.len() - cur,
    {
        cur += 1;
    }
    cur
}

/// Parse one square token.
fn parse_square_bytes(t: &[u8]) -> (r: Option<Pair>)
    ensures
        r == spec_parse_square(t@),
{
    if t.len() != 2 {
        return None;
    }
    let rank_b = t[1];
    if rank_b < 49 || rank_b > 56 {
        return None;
    }
    let mut file_b = t[0];
    if file_b >= 65 && file_b <= 90 {
        file_b = file_b + 32;
    }
    if file_b < 97 || file_b > 104 {
        return None;
    }
    Some((((rank_b - 49) as usize), ((file_b - 97) as usize)))
}

impl Game {
    /// Whether some opposed piece could land on the given square by the
    /// path and capture rules alone. A provided but unintegrated seed for
    /// check detection: the legality pipeline never calls it.
    pub fn square_attacked(&self, square: Pair, colour: Colour) -> (ret: bool)
        requires
            self.wf(),
            on_board(square.0 as int, square.1 as int),
        ensures
            ret == spec_square_attacked(*self, square.0 as int, square.1 as int, colour),
    {
        let sr = square.0;
        let sf = square.1;
        let mut r: usize = 0;
        while r < 8
            invariant
                self.wf(),
                sr == square.0,
                sf == square.1,
                on_board(sr as int, sf as int),
                r <= 8,
                forall|i: int, j: int|
                    0 <= i < r && 0 <= j < 8 ==> !(#[trigger] self.board.at(i, j) matches Some(p)
                        && p.colour != colour && spec_check_non_castle(
                        self.board,
                        p,
                        i,
                        j,
                        sr as int,
                        sf as int,
                    )),
            decreases 8 - r,
        {
            let mut f: usize = 0;
            while f < 8
                invariant
                    self.wf(),
                    sr == square.0,
                    sf == square.1,
                    on_board(sr as int, sf as int),
                    r < 8,
                    f <= 8,
                    forall|i: int, j: int|
                        0 <= i < r && 0 <= j < 8 ==> !(#[trigger] self.board.at(i, j) matches Some(
                            p,
                        ) && p.colour != colour && spec_check_non_castle(
                            self.board,
                            p,
                            i,
                            j,
                            sr as int,
                            sf as int,
                        )),
                    forall|j: int|
                        0 <= j < f ==> !(#[trigger] self.board.at(r as int, j) matches Some(p)
                            && p.colour != colour && spec_check_non_castle(
                            self.board,
                            p,
                            r as int,
                            j,
                            sr as int,
                            sf as int,
                        )),
                decreases 8 - f,
            {
                match self.board.piece_at((r, f)) {
                    Some(p) => {
                        if !(p.colour() == colour) {
                            if self.check_move_non_castle((r, f), (sr, sf), p) {
                                assert(spec_square_attacked(
                                    *self,
                                    sr as int,
                                    sf as int,
                                    colour,
                                )) by {
                                    assert(self.board.at(r as int, f as int) matches Some(q)
                                        && on_board(r as int, f as int) && q.colour != colour
                                        && spec_check_non_castle(
                                        self.board,
                                        q,
                                        r as int,
                                        f as int,
                                        sr as int,
                                        sf as int,
                                    ));
                                }
                                return true;
                            }
                        }
                    },
                    None => {},
                }
                f += 1;
            }
            r += 1;
        }
        proof {
            if spec_square_attacked(*self, sr as int, sf as int, colour) {
                let (i, j) = choose|i: int, j: int|
                    #[trigger] self.board.at(i, j) matches Some(p) && on_board(i, j) && p.colour
                        != colour && spec_check_non_castle(
                        self.board,
                        p,
                        i,
                        j,
                        sr as int,
                        sf as int,
                    );
                assert(!(self.board.at(i, j) matches Some(p) && p.colour != colour
                    && spec_check_non_castle(self.board, p, i, j, sr as int, sf as int)));
            }
        }
        false
    }

    /// Parse a move request of the form `from - to` (chess notation is
    /// file-then-rank, boards are indexed rank-then-file, so the
    /// coordinates come out swapped); any malformed or out-of-range
    /// request yields nothing.
    pub fn parse_move(turn: &str) -> (r: Option<(Pair, Pair)>)
        ensures
            r == spec_parse_move(turn.spec_bytes()),
    {
        let bytes = turn.as_bytes();
        let n = bytes.len();
        let e1 = scan_token_end(bytes, 0);
        if e1 == n {
            return None;
        }
        let e2 = scan_token_end(bytes, e1 + 1);
        if e2 == n {
            return None;
        }
        let e3 = scan_token_end(bytes, e2 + 1);
        let from = parse_square_bytes(&bytes[0..e1]);
        let to = parse_square_bytes(&bytes[e2 + 1..e3]);
        match (from, to) {
            (Some(a), Some(b)) => Some((a, b)),
            _ => None,
        }
    }
}

/// A legal move resolved through the castling fallback satisfies the
/// coordinate conditions of `spec_castle_ok` — an unmoved king and rook in
/// the coordinate sense — and leaves both of the castling colour's rights
/// flags revoked. They then stay revoked for the rest of the game, since
/// `handle_move` only ever shrinks the rights (`rights_leq`).
pub proof fn lemma_castle_revokes_both_flags(g: Game, fr: int, ff: int, tr: int, tf: int)
    requires
        spec_move_legal(g, fr, ff, tr, tf),
        spec_resolves_as_castle(g, fr, ff, tr, tf),
    ensures
        spec_castle_ok(g.board, fr, ff, tr, tf),
        g.board.at(fr, ff)->Some_0.colour is White ==> !spec_rights_after(
            g,
            fr,
            ff,
            tr,
            tf,
        ).white_queenside && !spec_rights_after(g, fr, ff, tr, tf).white_kingside,
        g.board.at(fr, ff)->Some_0.colour is Black ==> !spec_rights_after(
            g,
            fr,
            ff,
            tr,
            tf,
        ).black_queenside && !spec_rights_after(g, fr, ff, tr, tf).black_kingside,
{
}

/// The straight-move check does not depend on which of the two squares is
/// called the origin: swapping origin and destination gives the same
/// verdict.
pub proof fn lemma_straight_check_symmetric(b: Board, ar: int, af: int, br: int, bf: int)
    ensures
        spec_check_straight(b, ar, af, br, bf) == spec_check_straight(b, br, bf, ar, af),
{
}

/// The diagonal-move check does not depend on which of the two squares is
/// called the origin: swapping origin and destination gives the same
/// verdict.
pub proof fn lemma_diag_check_symmetric(b: Board, ar: int, af: int, br: int, bf: int)
    ensures
        spec_check_diag(b, ar, af, br, bf) == spec_check_diag(b, br, bf, ar, af),
{
    if diag_is(ar, af, br, bf) {
        if diag_clear(b, ar, af, br, bf) {
            assert forall|i: int| 0 < i < delta(br, ar) implies #[trigger] diag_between(
                b,
                br,
                bf,
                ar,
                af,
                i,
            ) is None by {
                assert(diag_between(b, ar, af, br, bf, i) is None);
            }
        }
        if diag_clear(b, br, bf, ar, af) {
            assert forall|i: int| 0 < i < delta(ar, br) implies #[trigger] diag_between(
                b,
                ar,
                af,
                br,
                bf,
                i,
            ) is None by {
                assert(diag_between(b, br, bf, ar, af, i) is None);
            }
        }
    }
}

} // verus!
