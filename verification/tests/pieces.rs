use chess::game::Game;
use chess::piece::{Colour, Piece, PossiblePieces};

#[test]
fn no_null_moves() {
    let kinds = [
        PossiblePieces::Bishop,
        PossiblePieces::King,
        PossiblePieces::Knight,
        PossiblePieces::Pawn,
        PossiblePieces::Queen,
        PossiblePieces::Rook,
    ];
    for kind in kinds {
        for colour in [Colour::White, Colour::Black] {
            let p = Piece::new(kind, colour);
            assert!(!p.valid_move((0, 0), (0, 0)));
            assert!(!p.valid_move((3, 4), (3, 4)));
            assert!(!p.valid_move((7, 7), (7, 7)));
        }
    }
}

#[test]
fn slider_shapes_are_symmetric() {
    let rook = Piece::new(PossiblePieces::Rook, Colour::White);
    let bishop = Piece::new(PossiblePieces::Bishop, Colour::Black);
    let queen = Piece::new(PossiblePieces::Queen, Colour::White);
    let pairs = [((0, 0), (0, 5)), ((0, 0), (4, 0)), ((2, 0), (0, 2)), ((1, 1), (4, 4)), ((3, 2), (5, 6))];
    for (a, b) in pairs {
        assert_eq!(rook.valid_move(a, b), rook.valid_move(b, a));
        assert_eq!(bishop.valid_move(a, b), bishop.valid_move(b, a));
        assert_eq!(queen.valid_move(a, b), queen.valid_move(b, a));
    }
    assert!(rook.valid_move((0, 0), (0, 5)));
    assert!(bishop.valid_move((2, 0), (0, 2)));
    assert!(queen.valid_move((1, 1), (4, 4)));
}

#[test]
fn knight_shape_depends_only_on_delta_pair() {
    let n = Piece::new(PossiblePieces::Knight, Colour::White);
    // All eight moves around (4, 4) have delta pair {1, 2} and are legal.
    let targets = [(6, 5), (6, 3), (2, 5), (2, 3), (5, 6), (5, 2), (3, 6), (3, 2)];
    for t in targets {
        assert!(n.valid_move((4, 4), t));
    }
    // Other delta pairs are not.
    assert!(!n.valid_move((4, 4), (6, 4)));
    assert!(!n.valid_move((4, 4), (5, 5)));
    assert!(!n.valid_move((4, 4), (6, 6)));
}

#[test]
fn pawn_shapes() {
    let wp = Piece::new(PossiblePieces::Pawn, Colour::White);
    let bp = Piece::new(PossiblePieces::Pawn, Colour::Black);
    // Single and double advances from the starting rank.
    assert!(wp.valid_move((1, 4), (2, 4)));
    assert!(wp.valid_move((1, 4), (3, 4)));
    assert!(!wp.valid_move((1, 4), (0, 4)));
    assert!(!wp.valid_move((2, 4), (4, 4)));
    assert!(bp.valid_move((6, 4), (5, 4)));
    assert!(bp.valid_move((6, 4), (4, 4)));
    assert!(!bp.valid_move((6, 4), (7, 4)));
    // Diagonal capture shapes go one rank in the colour's direction only.
    assert!(wp.valid_move((1, 4), (2, 5)));
    assert!(wp.valid_move((1, 4), (2, 3)));
    assert!(!wp.valid_move((1, 4), (0, 5)));
    assert!(bp.valid_move((6, 4), (5, 3)));
    assert!(!bp.valid_move((6, 4), (7, 3)));
}

#[test]
fn king_shape_accepts_castle_jump_only_from_home() {
    let k = Piece::new(PossiblePieces::King, Colour::White);
    assert!(k.valid_move((0, 4), (0, 6)));
    assert!(k.valid_move((0, 4), (0, 2)));
    assert!(k.valid_move((7, 4), (7, 6)));
    assert!(k.valid_move((3, 3), (4, 4)));
    assert!(!k.valid_move((3, 4), (3, 6)));
    assert!(!k.valid_move((0, 3), (0, 5)));
}

#[test]
fn off_board_moves_are_rejected() {
    let q = Piece::new(PossiblePieces::Queen, Colour::White);
    assert!(!q.valid_move((0, 0), (0, 8)));
    assert!(!q.valid_move((8, 0), (0, 0)));
}

#[test]
fn fen_letters() {
    assert_eq!(Piece::new(PossiblePieces::King, Colour::White).to_fen_rep(), 'K');
    assert_eq!(Piece::new(PossiblePieces::King, Colour::Black).to_fen_rep(), 'k');
    assert_eq!(Piece::new(PossiblePieces::Knight, Colour::White).to_fen_rep(), 'N');
    assert_eq!(Piece::new(PossiblePieces::Pawn, Colour::Black).to_fen_rep(), 'p');
    assert_eq!(Piece::new(PossiblePieces::Queen, Colour::Black).to_fen_rep(), 'q');
}

#[test]
fn algebraic_letters() {
    assert_eq!(Piece::new(PossiblePieces::Pawn, Colour::White).to_alg_rep(), None);
    assert_eq!(Piece::new(PossiblePieces::Pawn, Colour::Black).to_alg_rep(), None);
    assert_eq!(Piece::new(PossiblePieces::Rook, Colour::Black).to_alg_rep(), Some('R'));
    assert_eq!(Piece::new(PossiblePieces::Bishop, Colour::White).to_alg_rep(), Some('B'));
}

#[test]
fn colour_toggles() {
    let mut c = Colour::White;
    c.change_colour();
    assert_eq!(c, Colour::Black);
    c.change_colour();
    assert_eq!(c, Colour::White);
    let p = Piece::new(PossiblePieces::Rook, Colour::White);
    let q = p.change_colour();
    assert_eq!(q.colour(), Colour::Black);
    assert_eq!(q.poss_piece(), PossiblePieces::Rook);
    assert_eq!(p.colour(), Colour::White);
}

#[test]
fn parse_move_accepts_well_formed_requests() {
    assert_eq!(Game::parse_move("e2 - e4"), Some(((1, 4), (3, 4))));
    assert_eq!(Game::parse_move("a1 - h8"), Some(((0, 0), (7, 7))));
    assert_eq!(Game::parse_move("E2 - E4"), Some(((1, 4), (3, 4))));
}

#[test]
fn parse_move_rejects_malformed_requests() {
    // Fewer than three tokens: the destination is the third token.
    assert_eq!(Game::parse_move("e2 e4"), None);
    assert_eq!(Game::parse_move("e2"), None);
    assert_eq!(Game::parse_move(""), None);
    // Out-of-range squares and wrong token lengths.
    assert_eq!(Game::parse_move("e0 - e4"), None);
    assert_eq!(Game::parse_move("e9 - e4"), None);
    assert_eq!(Game::parse_move("i2 - e4"), None);
    assert_eq!(Game::parse_move("e22 - e4"), None);
    assert_eq!(Game::parse_move("e2 - 4e"), None);
}
