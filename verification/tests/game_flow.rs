use chess::board::Board;
use chess::game::{CastleRights, Game};
use chess::piece::{Colour, Piece, PossiblePieces};

fn count_pieces(b: &Board) -> usize {
    let mut n = 0;
    for r in 0..8 {
        for f in 0..8 {
            if b.piece_at((r, f)).is_some() {
                n += 1;
            }
        }
    }
    n
}

fn all_rights() -> CastleRights {
    CastleRights {
        white_queenside: true,
        white_kingside: true,
        black_queenside: true,
        black_kingside: true,
    }
}

#[test]
fn initial_position() {
    let g = Game::new_game();
    assert_eq!(g.board.piece_at((0, 0)), Some(Piece::new(PossiblePieces::Rook, Colour::White)));
    assert_eq!(g.board.piece_at((0, 4)), Some(Piece::new(PossiblePieces::King, Colour::White)));
    assert_eq!(g.board.piece_at((0, 3)), Some(Piece::new(PossiblePieces::Queen, Colour::White)));
    assert_eq!(g.board.piece_at((1, 7)), Some(Piece::new(PossiblePieces::Pawn, Colour::White)));
    assert_eq!(g.board.piece_at((6, 0)), Some(Piece::new(PossiblePieces::Pawn, Colour::Black)));
    assert_eq!(g.board.piece_at((7, 1)), Some(Piece::new(PossiblePieces::Knight, Colour::Black)));
    assert_eq!(g.board.piece_at((7, 5)), Some(Piece::new(PossiblePieces::Bishop, Colour::Black)));
    assert_eq!(g.board.piece_at((4, 4)), None);
    assert_eq!(count_pieces(&g.board), 32);
    assert_eq!(g.curr_player, Colour::White);
    assert_eq!(g.curr_move, 1);
    assert!(!g.mate);
    assert_eq!(g.castles, all_rights());
    assert_eq!(g.player(), "player 1");
    assert!(!g.check_checks());
}

#[test]
fn pawn_double_advance_accepted() {
    // White plays e2 - e4 on the initial board.
    let mut g = Game::new_game();
    assert!(g.handle_move((1, 4), (3, 4)).is_ok());
    assert_eq!(g.board.piece_at((3, 4)), Some(Piece::new(PossiblePieces::Pawn, Colour::White)));
    assert_eq!(g.board.piece_at((1, 4)), None);
    assert_eq!(g.curr_player, Colour::Black);
    assert_eq!(g.player(), "player 2");
    assert_eq!(g.curr_move, 1);
    assert_eq!(g.castles, all_rights());
}

#[test]
fn kingside_castle_relocates_rook_and_revokes_rights() {
    // White king on e1, rook on h1, f1 and g1 empty, no prior moves.
    let mut board = Board::default();
    board.set_piece((0, 5), None);
    board.set_piece((0, 6), None);
    let mut g = Game {
        board,
        curr_player: Colour::White,
        mate: false,
        curr_move: 1,
        castles: all_rights(),
    };
    assert!(g.handle_move((0, 4), (0, 6)).is_ok());
    assert_eq!(g.board.piece_at((0, 6)), Some(Piece::new(PossiblePieces::King, Colour::White)));
    assert_eq!(g.board.piece_at((0, 5)), Some(Piece::new(PossiblePieces::Rook, Colour::White)));
    assert_eq!(g.board.piece_at((0, 4)), None);
    assert_eq!(g.board.piece_at((0, 7)), None);
    assert!(!g.castles.white_queenside);
    assert!(!g.castles.white_kingside);
    assert!(g.castles.black_queenside);
    assert!(g.castles.black_kingside);
    assert_eq!(g.curr_player, Colour::Black);
}

#[test]
fn castle_rights_stay_revoked() {
    let mut board = Board::default();
    board.set_piece((0, 5), None);
    board.set_piece((0, 6), None);
    let mut g = Game {
        board,
        curr_player: Colour::White,
        mate: false,
        curr_move: 1,
        castles: all_rights(),
    };
    assert!(g.handle_move((0, 4), (0, 6)).is_ok());
    assert!(!g.castles.white_queenside && !g.castles.white_kingside);
    // Play on; the flags never come back.
    assert!(g.handle_move((6, 4), (4, 4)).is_ok());
    assert!(g.handle_move((3, 4), (2, 4)).is_err());
    assert!(!g.castles.white_queenside && !g.castles.white_kingside);
    assert!(g.castles.black_queenside && g.castles.black_kingside);
}

#[test]
fn queenside_castle_relocates_rook_onto_the_kings_square() {
    // Queenside the rook is relocated to file 2, the very square the king
    // then lands on, so the king overwrites it; and only the square
    // strictly between the king's origin and destination is scanned, so a
    // piece on b1 does not block the castle.
    let mut board = Board::default();
    board.set_piece((0, 2), None);
    board.set_piece((0, 3), None);
    let mut g = Game {
        board,
        curr_player: Colour::White,
        mate: false,
        curr_move: 1,
        castles: all_rights(),
    };
    let before = count_pieces(&g.board);
    assert!(g.handle_move((0, 4), (0, 2)).is_ok());
    assert_eq!(g.board.piece_at((0, 2)), Some(Piece::new(PossiblePieces::King, Colour::White)));
    assert_eq!(g.board.piece_at((0, 0)), None);
    assert_eq!(g.board.piece_at((0, 4)), None);
    assert_eq!(g.board.piece_at((0, 1)), Some(Piece::new(PossiblePieces::Knight, Colour::White)));
    assert_eq!(count_pieces(&g.board), before - 1);
    assert!(!g.castles.white_queenside && !g.castles.white_kingside);
}

#[test]
fn castle_rejected_without_rook_in_corner() {
    let mut board = Board::default();
    board.set_piece((0, 5), None);
    board.set_piece((0, 6), None);
    board.set_piece((0, 7), None);
    let mut g = Game {
        board,
        curr_player: Colour::White,
        mate: false,
        curr_move: 1,
        castles: all_rights(),
    };
    assert!(g.handle_move((0, 4), (0, 6)).is_err());
    assert_eq!(g.castles, all_rights());
    assert_eq!(g.board.piece_at((0, 4)), Some(Piece::new(PossiblePieces::King, Colour::White)));
}

#[test]
fn castle_rejected_through_occupied_square() {
    // f1 still holds the bishop: the king's path is blocked.
    let mut board = Board::default();
    board.set_piece((0, 6), None);
    let mut g = Game {
        board,
        curr_player: Colour::White,
        mate: false,
        curr_move: 1,
        castles: all_rights(),
    };
    assert!(g.handle_move((0, 4), (0, 6)).is_err());
    assert_eq!(g.castles, all_rights());
}

#[test]
fn blocked_pawn_advance_rejected() {
    // After e2 - e4, a piece sits on e6: Black may play neither e7 - e5
    // nor e7 - e6.
    let mut g = Game::new_game();
    assert!(g.handle_move((1, 4), (3, 4)).is_ok());
    g.board.set_piece((5, 4), Some(Piece::new(PossiblePieces::Knight, Colour::White)));
    assert!(g.handle_move((6, 4), (4, 4)).is_err());
    assert!(g.handle_move((6, 4), (5, 4)).is_err());
    assert_eq!(g.board.piece_at((6, 4)), Some(Piece::new(PossiblePieces::Pawn, Colour::Black)));
    assert_eq!(g.board.piece_at((4, 4)), None);
    assert_eq!(g.curr_player, Colour::Black);
}

#[test]
fn same_colour_destination_rejected() {
    let mut g = Game::new_game();
    // Rook a1 onto the white pawn at a2, knight b1 onto the white pawn at
    // d2: right shapes, same-colour targets.
    assert!(g.handle_move((0, 0), (1, 0)).is_err());
    assert!(g.handle_move((0, 1), (1, 3)).is_err());
    assert_eq!(count_pieces(&g.board), 32);
    assert_eq!(g.curr_player, Colour::White);
}

#[test]
fn knight_moves() {
    // b1 - b3 is no L-shape and is rejected; b1 - c3 is accepted onto an
    // empty square.
    let mut g = Game::new_game();
    assert!(g.handle_move((0, 1), (2, 1)).is_err());
    assert!(g.handle_move((0, 1), (2, 2)).is_ok());
    assert_eq!(g.board.piece_at((2, 2)), Some(Piece::new(PossiblePieces::Knight, Colour::White)));
    assert_eq!(g.board.piece_at((0, 1)), None);
}

#[test]
fn capture_removes_exactly_the_victim() {
    let mut g = Game::new_game();
    g.board.set_piece((3, 3), Some(Piece::new(PossiblePieces::Rook, Colour::White)));
    g.board.set_piece((3, 6), Some(Piece::new(PossiblePieces::Pawn, Colour::Black)));
    let before = count_pieces(&g.board);
    assert!(g.handle_move((3, 3), (3, 6)).is_ok());
    assert_eq!(g.board.piece_at((3, 6)), Some(Piece::new(PossiblePieces::Rook, Colour::White)));
    assert_eq!(g.board.piece_at((3, 3)), None);
    assert_eq!(count_pieces(&g.board), before - 1);
}

#[test]
fn non_capture_keeps_the_piece_count() {
    let mut g = Game::new_game();
    let before = count_pieces(&g.board);
    assert!(g.handle_move((1, 4), (3, 4)).is_ok());
    assert_eq!(count_pieces(&g.board), before);
}

#[test]
fn geometric_inverse_is_no_round_trip() {
    // A legal move followed by the swap of the same two squares need not
    // be legal, and the board does not return to its prior state.
    let mut g = Game::new_game();
    assert!(g.handle_move((1, 4), (3, 4)).is_ok());
    assert!(g.handle_move((3, 4), (1, 4)).is_err());
    assert_eq!(g.board.piece_at((1, 4)), None);
    assert_eq!(g.board.piece_at((3, 4)), Some(Piece::new(PossiblePieces::Pawn, Colour::White)));
    assert_eq!(g.curr_player, Colour::Black);
}

#[test]
fn corner_origin_revokes_one_flag() {
    let mut g = Game::new_game();
    g.board.set_piece((1, 0), None);
    assert!(g.handle_move((0, 0), (2, 0)).is_ok());
    assert!(!g.castles.white_queenside);
    assert!(g.castles.white_kingside);
    assert!(g.castles.black_queenside && g.castles.black_kingside);
}

#[test]
fn update_rook_castles_is_coordinate_based() {
    let mut g = Game::new_game();
    assert!(g.update_rook_castles((7, 7)));
    assert!(!g.castles.black_kingside);
    assert!(g.castles.black_queenside && g.castles.white_queenside && g.castles.white_kingside);
    assert!(g.update_rook_castles((4, 4)));
    assert!(!g.castles.black_kingside);
    assert!(g.castles.black_queenside && g.castles.white_queenside && g.castles.white_kingside);
}

#[test]
fn move_counter_advances_after_black() {
    let mut g = Game::new_game();
    assert_eq!(g.curr_move, 1);
    assert!(g.handle_move((1, 4), (3, 4)).is_ok());
    assert_eq!(g.curr_move, 1);
    assert!(g.handle_move((6, 4), (4, 4)).is_ok());
    assert_eq!(g.curr_move, 2);
}

#[test]
fn empty_origin_and_off_board_rejected() {
    let mut g = Game::new_game();
    assert!(g.handle_move((4, 4), (5, 4)).is_err());
    assert!(g.handle_move((0, 0), (0, 8)).is_err());
    assert!(g.handle_move((8, 0), (0, 0)).is_err());
    assert_eq!(g.curr_player, Colour::White);
    assert_eq!(count_pieces(&g.board), 32);
}

#[test]
fn path_checks_are_direction_independent() {
    let g = Game::new_game();
    // A clear file from the a2 pawn up to the empty a6, both ways round.
    assert!(g.check_straight_move((1, 0), (5, 0)));
    assert!(g.check_straight_move((5, 0), (1, 0)));
    // A blocked file: the a2 pawn stands between a1 and a4.
    assert!(!g.check_straight_move((0, 0), (3, 0)));
    assert!(!g.check_straight_move((3, 0), (0, 0)));
    // A clear diagonal from the c2 pawn out to the empty f5, both ways.
    assert!(g.check_diag_move((1, 2), (4, 5)));
    assert!(g.check_diag_move((4, 5), (1, 2)));
    // A blocked diagonal: the d2 pawn stands between c1 and f4.
    assert!(!g.check_diag_move((0, 2), (3, 5)));
    assert!(!g.check_diag_move((3, 5), (0, 2)));
}

#[test]
fn board_primitives_ignore_off_board_squares() {
    let mut b = Board::default();
    b.set_piece((8, 0), Some(Piece::new(PossiblePieces::Queen, Colour::White)));
    b.move_piece((0, 0), (9, 9));
    b.move_piece((9, 9), (4, 4));
    assert_eq!(count_pieces(&b), 32);
    assert_eq!(b.piece_at((0, 0)), Some(Piece::new(PossiblePieces::Rook, Colour::White)));
    assert_eq!(b.piece_at((8, 0)), None);
}

#[test]
fn move_piece_overwrites_destination() {
    let mut b = Board::default();
    b.move_piece((0, 3), (6, 3));
    assert_eq!(b.piece_at((6, 3)), Some(Piece::new(PossiblePieces::Queen, Colour::White)));
    assert_eq!(b.piece_at((0, 3)), None);
    assert_eq!(count_pieces(&b), 31);
}

#[test]
fn board_rows_match_squares() {
    let b = Board::default();
    let back = b.row(0);
    assert_eq!(back.len(), 8);
    assert_eq!(back[4], Some(Piece::new(PossiblePieces::King, Colour::White)));
    let empty = b.row(4);
    assert!(empty.iter().all(|sq| sq.is_none()));
}

#[test]
fn square_attacked_scans_opposed_pieces() {
    let g = Game::new_game();
    // No White piece passes its capture check onto the white king's own
    // square, so e1 is unattacked with respect to Black.
    assert!(!g.square_attacked((0, 4), Colour::Black));
    // A black knight's check ignores shape and obstruction entirely, so
    // the same square counts as attacked with respect to White.
    assert!(g.square_attacked((0, 4), Colour::White));
}
