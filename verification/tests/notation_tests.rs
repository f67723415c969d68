use oxm8::board::Board;
use oxm8::fen::{parse_fen, to_fen, START_FEN};
use oxm8::moves::{MoveType, Moves};
use oxm8::piece::{piece_to_char, piece_to_sp_string, Color, Piece};
use oxm8::util::{
    algebraic_to_coordinate, get_file, get_rank, king_distance, manhattan_distance,
    move_to_algebraic, parse_algebraic, pos_to_u8, same_diagonal, same_file, same_rank, u8_to_pos,
};

#[test]
fn test_algebraic_notation() {
    let normal_move = Moves::new(8, 16, MoveType::Normal); // a2 to a3
    assert_eq!(normal_move.to_algebraic(), "a2a3");

    let double_move = Moves::new(8, 24, MoveType::Double); // a2 to a4
    assert_eq!(double_move.to_algebraic(), "a2a4");

    let promotion_move = Moves::new(
        48,
        56,
        MoveType::Promotion {
            piece: Piece::Queen,
        },
    ); // a7 to a8=Q
    assert_eq!(promotion_move.to_algebraic(), "a7a8=Q");

    let capture_promotion = Moves::new(48, 57, MoveType::PromotionCapture { piece: Piece::Rook }); // a7 to b8=R
    assert_eq!(capture_promotion.to_algebraic(), "a7b8=R");
}

#[test]
fn test_move_type_checks() {
    let normal_move = Moves::new(8, 16, MoveType::Normal);
    assert!(!normal_move.is_promotion());
    assert!(!normal_move.is_capture());

    let capture_move = Moves::new(8, 17, MoveType::Capture);
    assert!(!capture_move.is_promotion());
    assert!(capture_move.is_capture());

    let promotion_move = Moves::new(
        48,
        56,
        MoveType::Promotion {
            piece: Piece::Queen,
        },
    );
    assert!(promotion_move.is_promotion());
    assert!(!promotion_move.is_capture());

    let promotion_capture = Moves::new(
        48,
        57,
        MoveType::PromotionCapture {
            piece: Piece::Queen,
        },
    );
    assert!(promotion_capture.is_promotion());
    assert!(promotion_capture.is_capture());

    let en_passant = Moves::new(33, 42, MoveType::EnPassant);
    assert!(!en_passant.is_promotion());
    assert!(en_passant.is_capture());
}

#[test]
fn test_algebraic_to_coordinate_conversion() {
    // Starting position
    let board = Board::from_fen(START_FEN);

    // Test knight moves
    assert_eq!(
        algebraic_to_coordinate("Nf3", &board, Color::White),
        Some("g1f3".to_string())
    );
    assert_eq!(
        algebraic_to_coordinate("Nc3", &board, Color::White),
        Some("b1c3".to_string())
    );

    // Test pawn moves
    assert_eq!(
        algebraic_to_coordinate("e4", &board, Color::White),
        Some("e2e4".to_string())
    );
    assert_eq!(
        algebraic_to_coordinate("d3", &board, Color::White),
        Some("d2d3".to_string())
    );

    // Test castling
    assert_eq!(
        algebraic_to_coordinate("O-O", &board, Color::White),
        Some("e1g1".to_string())
    );
    assert_eq!(
        algebraic_to_coordinate("O-O-O", &board, Color::White),
        Some("e1c1".to_string())
    );
}

#[test]
fn test_algebraic_with_disambiguation() {
    // Position with two knights that could go to the same square
    let board =
        Board::from_fen("r1bqkb1r/pppp1ppp/2n2n2/4p3/2B1P3/3P1N2/PPP2PPP/RNBQK2R w KQkq - 0 1");

    // Test disambiguation by file
    if let Some(coord) = algebraic_to_coordinate("Nbd7", &board, Color::Black) {
        assert!(coord.starts_with("b8") || coord.starts_with("c6"));
    }

    // Test king move
    assert_eq!(
        algebraic_to_coordinate("Kf1", &board, Color::White),
        Some("e1f1".to_string())
    );
}

#[test]
fn test_algebraic_with_captures() {
    // Position with capture possibilities
    let board = Board::from_fen("rnbqkbnr/ppp1pppp/8/3p4/4P3/8/PPPP1PPP/RNBQKBNR w KQkq d6 0 2");

    // Test pawn capture
    if let Some(coord) = algebraic_to_coordinate("exd5", &board, Color::White) {
        assert_eq!(coord, "e4d5");
    }
}

#[test]
fn test_algebraic_promotions() {
    // Pawn promotion position
    let board = Board::from_fen("8/P7/8/8/8/8/8/8 w - - 0 1");

    // Test promotion
    assert_eq!(
        algebraic_to_coordinate("a8=Q", &board, Color::White),
        Some("a7a8".to_string())
    );
    assert_eq!(
        algebraic_to_coordinate("a8=R", &board, Color::White),
        Some("a7a8".to_string())
    );
}

#[test]
fn test_square_names() {
    assert_eq!(pos_to_u8("a1"), Some(0));
    assert_eq!(pos_to_u8("h8"), Some(63));
    assert_eq!(pos_to_u8("e4"), Some(28));
    assert_eq!(pos_to_u8("i1"), None);
    assert_eq!(pos_to_u8("a9"), None);
    assert_eq!(pos_to_u8("a"), None);
    assert_eq!(pos_to_u8("a10"), None);

    assert_eq!(u8_to_pos(0), "a1");
    assert_eq!(u8_to_pos(63), "h8");
    assert_eq!(u8_to_pos(28), "e4");
}

#[test]
fn test_move_text_forms() {
    assert_eq!(move_to_algebraic(12, 28, None), "e2e4");
    assert_eq!(move_to_algebraic(48, 56, Some(Piece::Queen)), "a7a8=Q");
    assert_eq!(move_to_algebraic(48, 56, Some(Piece::Knight)), "a7a8=N");

    assert_eq!(parse_algebraic("e2e4"), Some((12, 28, None)));
    assert_eq!(parse_algebraic("a7a8=Q"), Some((48, 56, Some(Piece::Queen))));
    assert_eq!(parse_algebraic("a7a8=X"), Some((48, 56, None)));
    assert_eq!(parse_algebraic("e2"), None);
    assert_eq!(parse_algebraic("zz11"), None);
}

#[test]
fn test_square_geometry() {
    assert_eq!(get_file(0), 0);
    assert_eq!(get_file(7), 7);
    assert_eq!(get_rank(56), 7);
    assert!(same_file(0, 56)); // a1 and a8
    assert!(!same_file(0, 1));
    assert!(same_rank(0, 7)); // a1 and h1
    assert!(!same_rank(0, 8));
    assert!(same_diagonal(0, 63)); // a1 and h8
    assert!(!same_diagonal(0, 1));
    assert!(!same_diagonal(0, 0)); // a square is not its own diagonal
    assert_eq!(manhattan_distance(0, 63), 14);
    assert_eq!(king_distance(0, 63), 7);
    assert_eq!(king_distance(0, 8), 1);
}

#[test]
fn test_fen_round_trip() {
    let board = parse_fen(START_FEN).unwrap();
    assert_eq!(to_fen(&board), START_FEN);

    let mid = "r1bqk2r/pppp1ppp/2n2n2/2b1p3/2B1P3/3P1N2/PPP2PPP/RNBQK2R w KQkq - 0 1";
    let board2 = parse_fen(mid).unwrap();
    assert_eq!(to_fen(&board2), mid);

    let with_ep = "rnbqkbnr/pppppppp/8/8/4P3/8/PPPP1PPP/RNBQKBNR b KQkq e3 0 1";
    let board3 = parse_fen(with_ep).unwrap();
    assert_eq!(board3.en_passant, Some(20));
    assert_eq!(to_fen(&board3), with_ep);
}

#[test]
fn test_fen_errors() {
    // Too few fields.
    assert!(parse_fen("8/8/8/8/8/8/8/8 w - -").is_err());
    // Bad active color.
    assert!(parse_fen("8/8/8/8/8/8/8/8 x - - 0 1").is_err());
    // Bad halfmove clock.
    assert!(parse_fen("8/8/8/8/8/8/8/8 w - - x 1").is_err());
    // Bad fullmove number.
    assert!(parse_fen("8/8/8/8/8/8/8/8 w - - 0 x").is_err());
    // A row that overflows the board.
    assert!(parse_fen("9/8/8/8/8/8/8/8 w - - 0 1").is_err());
    // A stray character in the placement.
    assert!(parse_fen("7z/8/8/8/8/8/8/8 w - - 0 1").is_err());
}

#[test]
fn test_piece_letters() {
    assert_eq!(piece_to_char(Piece::King, Color::White), 'K');
    assert_eq!(piece_to_char(Piece::King, Color::Black), 'k');
    assert_eq!(piece_to_char(Piece::Pawn, Color::White), 'P');
    assert_eq!(piece_to_char(Piece::Knight, Color::Black), 'n');
    assert_eq!(piece_to_sp_string(Piece::Queen, Color::White), "White Queen");
    assert_eq!(piece_to_sp_string(Piece::Rook, Color::Black), "Black Rook");
}
