use oxm8::board::Board;
use oxm8::eval::Eval;
use oxm8::fen::START_FEN;
use oxm8::game::ChessGame;
use oxm8::moves::Moves;
use oxm8::piece::{Color, Piece};

#[test]
fn test_material_values() {
    assert_eq!(Eval::match_piece_value(Piece::Pawn), 100);
    assert_eq!(Eval::match_piece_value(Piece::Knight), 300);
    assert_eq!(Eval::match_piece_value(Piece::Bishop), 300);
    assert_eq!(Eval::match_piece_value(Piece::Rook), 500);
    assert_eq!(Eval::match_piece_value(Piece::Queen), 900);
    assert_eq!(Eval::match_piece_value(Piece::King), 0);

    let board = Board::from_fen(START_FEN);
    assert_eq!(Eval::material(&board, Color::White), 8 * 100 + 2 * 300 + 2 * 300 + 2 * 500 + 900);
    assert_eq!(Eval::material_balance(&board), 0);
}

#[test]
fn test_mobility_counts_pseudo_legal_moves() {
    let board = Board::from_fen(START_FEN);
    // Twenty pseudo-legal moves, ten points each.
    assert_eq!(Eval::mobility(&board, Color::White), 200);
    assert_eq!(Eval::mobility_balance(&board), 0);
}

#[test]
fn test_evaluate_lone_queen() {
    // A lone white queen on a1: 900 material, 21 moves of mobility, no pawns.
    let board = Board::from_fen("8/8/8/8/8/8/8/Q7 w - - 0 1");
    assert_eq!(Eval::material_balance(&board), 900);
    assert_eq!(Eval::mobility_balance(&board), 210);
    assert_eq!(Eval::pawn_structure_balance(&board), 0);
    assert_eq!(Eval::evaluate(&board), 1110);
}

#[test]
fn test_pawn_structure_terms() {
    // The white a-pawn is isolated but blocked from passing by the black
    // a-pawn; the symmetric position scores level.
    let board = Board::from_fen("8/p7/8/8/8/8/P7/8 w - - 0 1");
    assert_eq!(Eval::pawn_structure(&board, Color::White), -30);
    assert_eq!(Eval::pawn_structure(&board, Color::Black), -30);
    assert_eq!(Eval::pawn_structure_balance(&board), 0);

    // A lone passed pawn with no enemy pawns: isolated but passed.
    let board2 = Board::from_fen("8/8/8/8/8/8/P7/8 w - - 0 1");
    assert_eq!(Eval::pawn_structure(&board2, Color::White), 0);

    // Doubled pawns on one file: the front pawn counts as doubled.
    let board3 = Board::from_fen("8/8/8/8/P7/P7/8/8 w - - 0 1");
    assert_eq!(Eval::pawn_structure(&board3, Color::White), -20);
}

#[test]
fn test_alpha_beta_equals_minimax() {
    // The pruned search must agree with the unpruned full minimax.
    let board = Board::from_fen(START_FEN);
    for depth in 0..3u8 {
        let full = Eval::minimax(&board, depth, true);
        let pruned = Eval::alpha_beta(&board, depth, i32::MIN, i32::MAX, true);
        assert_eq!(pruned, full);
    }

    let middle = Board::from_fen("r1bqk2r/pppp1ppp/2n2n2/2b1p3/2B1P3/3P1N2/PPP2PPP/RNBQK2R w KQkq - 0 1");
    let full = Eval::minimax(&middle, 2, true);
    let pruned = Eval::alpha_beta(&middle, 2, i32::MIN, i32::MAX, true);
    assert_eq!(pruned, full);

    // And from the minimizing side.
    let full_min = Eval::minimax(&middle, 2, false);
    let pruned_min = Eval::alpha_beta(&middle, 2, i32::MIN, i32::MAX, false);
    assert_eq!(pruned_min, full_min);
}

#[test]
fn test_disjointness_preserved_by_play() {
    // Every reachable position keeps the twelve square-sets pairwise
    // disjoint: play a short line and count occupants of every square.
    let mut board = Board::from_fen(START_FEN);
    let line = ["e2e4", "c7c5", "g1f3", "d7d6", "f1b5", "c8d7", "e1g1"];
    let mut color = Color::White;
    for text in line {
        let legal = Moves::generate_legal_moves(&board, color);
        let mv = legal
            .iter()
            .find(|m| m.to_algebraic() == text)
            .copied()
            .unwrap_or_else(|| panic!("move {} not legal", text));
        board.make_move(&mv);
        color = color.opponent();
        assert_disjoint(&board);
    }
}

fn assert_disjoint(board: &Board) {
    let pieces = [
        Piece::Pawn,
        Piece::Knight,
        Piece::Bishop,
        Piece::Rook,
        Piece::Queen,
        Piece::King,
    ];
    for sq in 0..64u8 {
        let mut owners = 0;
        for piece in pieces {
            for color in [Color::White, Color::Black] {
                if board.get_bb(piece, color) & (1u64 << sq) != 0 {
                    owners += 1;
                }
            }
        }
        assert!(owners <= 1, "square {} held {} pieces", sq, owners);
    }
}

#[test]
fn test_round_trip_after_every_legal_move() {
    // Applying any legal move, then generating for the other color, always
    // returns a list — empty on terminal positions, never a failure.
    let positions = [
        START_FEN,
        "r3k2r/8/8/8/8/8/8/R3K2R w KQkq - 0 1",
        "4k3/8/8/8/4q3/8/8/4K3 w - - 0 1",
        "R5k1/5ppp/8/8/8/8/8/4K3 b - - 0 1",
    ];
    for fen in positions {
        let board = Board::from_fen(fen);
        for color in [Color::White, Color::Black] {
            for mv in Moves::generate_legal_moves(&board, color) {
                let mut child = board;
                child.make_move(&mv);
                let replies = Moves::generate_legal_moves(&child, color.opponent());
                let _ = replies.len();
                assert_disjoint(&child);
            }
        }
    }
}

#[test]
fn test_game_basic_play() {
    let mut game = ChessGame::new();
    assert_eq!(game.get_current_player(), Color::White);
    assert_eq!(game.get_legal_moves().len(), 20);
    assert!(!game.is_game_over());
    assert_eq!(oxm8::fen::to_fen(game.get_board()), START_FEN);

    assert!(game.try_move("e2", "e4").is_ok());
    assert_eq!(game.get_current_player(), Color::Black);
    assert!(game.try_move("e7", "e5").is_ok());
    assert_eq!(game.get_current_player(), Color::White);

    // An illegal request changes nothing.
    assert!(game.try_move("e4", "e6").is_err());
    assert_eq!(game.get_current_player(), Color::White);
}

#[test]
fn test_game_move_entry_forms() {
    let mut game = ChessGame::new();
    assert!(game.try_move_algebraic("e2e4").is_ok());
    assert!(game.try_move_algebraic("e7 e5").is_ok());
    assert!(game.try_move_algebraic("nonsense").is_err());
    assert!(game.looks_like_move_input("e2e4"));
    assert!(game.looks_like_move_input("e2 e4"));
    assert!(game.looks_like_move_input("a7a8=Q"));
    assert!(!game.looks_like_move_input("hello"));

    // Castling input resolves to the king's two-square move; here it is not
    // yet legal, so playing it is refused.
    let parsed = game.parse_move_input("O-O");
    assert!(parsed.is_some());
    assert_eq!(parsed.unwrap().from, 4);
    assert!(game.try_move_algebraic("O-O").is_err());
}

#[test]
fn test_game_promotion_entry() {
    let mut game = ChessGame::from_fen("k7/4P3/8/8/8/8/8/K7 w - - 0 1");
    assert!(game.try_move_algebraic("e7e8=N").is_ok());
    assert_eq!(
        game.get_board().get_piece_at(60),
        Some((Piece::Knight, Color::White))
    );
}
