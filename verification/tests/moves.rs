use chess_engine::board::BoardState;
use chess_engine::piece::{Color, Piece, PieceKind};
use chess_engine::square::Position;

const STARTING_FEN: &str = "rnbqkbnr/pppppppp/8/8/8/8/PPPPPPPP/RNBQKBNR w KQkq - 0 1";

fn sq(name: &str) -> Position {
    Position::position_from_string(name).expect("valid square name")
}

fn apply(board: &BoardState, from: &str, to: &str) -> BoardState {
    board.perform_move(sq(from), sq(to))
}

#[test]
fn starting_position_has_twenty_moves() {
    let board = BoardState::new();
    assert_eq!(board.get_legal_moves().len(), 20);
}

#[test]
fn e2_pawn_has_e3_and_e4() {
    let board = BoardState::from_fen(STARTING_FEN).expect("starting FEN parses");
    let moves = board.get_piece_moves_respecting_checks(sq("e2"));
    assert_eq!(moves.len(), 2);
    assert!(moves.contains(&sq("e3")));
    assert!(moves.contains(&sq("e4")));
}

#[test]
fn castling_both_sides_available() {
    let board = BoardState::from_fen("r3k2r/8/8/8/8/8/8/R3K2R w KQkq - 0 1").unwrap();
    let moves = board.get_piece_moves_respecting_checks(sq("e1"));
    assert!(moves.contains(&sq("g1")));
    assert!(moves.contains(&sq("c1")));
    assert!(moves.contains(&sq("d1")));
    assert!(moves.contains(&sq("f1")));
}

#[test]
fn castling_kingside_excluded_when_transit_attacked() {
    // The black bishop on h3 attacks f1, the square the king would pass
    // through on the kingside castle, and nothing else near the king.
    let board = BoardState::from_fen("r3k2r/8/8/8/8/7b/8/R3K2R w KQkq - 0 1").unwrap();
    let moves = board.get_piece_moves_respecting_checks(sq("e1"));
    assert!(!moves.contains(&sq("g1")));
    assert!(moves.contains(&sq("c1")));
    assert!(moves.contains(&sq("d1")));
    assert!(moves.contains(&sq("d2")));
    assert!(moves.contains(&sq("e2")));
    assert!(moves.contains(&sq("f2")));
    // Stepping onto the attacked square itself is a move into check.
    assert!(!moves.contains(&sq("f1")));
}

#[test]
fn stalemate_is_not_checkmate() {
    // Black to move: the king on a8 has no legal move but is not in check.
    let board = BoardState::from_fen("k7/8/1Q6/8/8/8/8/7K b - - 0 1").unwrap();
    assert!(board.get_legal_moves().is_empty());
    assert!(!board.is_color_in_check(Color::Black));
    assert!(!board.is_checkmate());
}

#[test]
fn two_lone_kings_not_checkmate() {
    let board = BoardState::from_fen("4k3/8/8/8/8/8/8/4K3 w - - 0 1").unwrap();
    assert!(!board.is_color_in_check(Color::White));
    assert!(!board.is_checkmate());
}

#[test]
fn fools_mate_is_checkmate() {
    let board =
        BoardState::from_fen("rnb1kbnr/pppp1ppp/8/4p3/6Pq/5P2/PPPPP2P/RNBQKBNR w KQkq - 1 3")
            .unwrap();
    assert!(board.is_color_in_check(Color::White));
    assert!(board.is_checkmate());
}

#[test]
fn double_push_sets_en_passant_target() {
    let board = apply(&BoardState::new(), "e2", "e4");
    assert_eq!(board.en_passant_square, Some(sq("e3")));
}

#[test]
fn other_move_clears_en_passant_target() {
    let board = apply(&BoardState::new(), "e2", "e4");
    let board = apply(&board, "g8", "f6");
    assert_eq!(board.en_passant_square, None);
}

#[test]
fn en_passant_capture_removes_pawn() {
    let board = BoardState::new();
    let board = apply(&board, "e2", "e4");
    let board = apply(&board, "d7", "d5");
    let board = apply(&board, "e4", "e5");
    let board = apply(&board, "f7", "f5");
    assert_eq!(board.en_passant_square, Some(sq("f6")));
    let moves = board.get_piece_moves_respecting_checks(sq("e5"));
    assert!(moves.contains(&sq("f6")));
    let board = apply(&board, "e5", "f6");
    assert_eq!(
        board.get_piece_at_position(sq("f6")),
        Piece::Occupied(PieceKind::Pawn, Color::White)
    );
    assert_eq!(board.get_piece_at_position(sq("f5")), Piece::Empty);
    assert_eq!(
        board.get_piece_at_position(sq("d5")),
        Piece::Occupied(PieceKind::Pawn, Color::Black)
    );
}

#[test]
fn kingside_castle_moves_rook() {
    let board = BoardState::from_fen("r3k2r/8/8/8/8/8/8/R3K2R w KQkq - 0 1").unwrap();
    let board = apply(&board, "e1", "g1");
    assert_eq!(
        board.get_piece_at_position(sq("g1")),
        Piece::Occupied(PieceKind::King, Color::White)
    );
    assert_eq!(
        board.get_piece_at_position(sq("f1")),
        Piece::Occupied(PieceKind::Rook, Color::White)
    );
    assert_eq!(board.get_piece_at_position(sq("h1")), Piece::Empty);
    assert_eq!(board.get_piece_at_position(sq("e1")), Piece::Empty);
    assert!(!board.castling_rights.white_kingside);
    assert!(!board.castling_rights.white_queenside);
    assert!(board.castling_rights.black_kingside);
}

#[test]
fn queenside_castle_moves_rook() {
    let board = BoardState::from_fen("r3k2r/8/8/8/8/8/8/R3K2R w KQkq - 0 1").unwrap();
    let board = apply(&board, "e1", "c1");
    assert_eq!(
        board.get_piece_at_position(sq("c1")),
        Piece::Occupied(PieceKind::King, Color::White)
    );
    assert_eq!(
        board.get_piece_at_position(sq("d1")),
        Piece::Occupied(PieceKind::Rook, Color::White)
    );
    assert_eq!(board.get_piece_at_position(sq("a1")), Piece::Empty);
}

#[test]
fn knight_moves_from_start() {
    let board = BoardState::new();
    let moves = board.get_knight_moves(sq("b1"));
    assert_eq!(moves.len(), 2);
    assert!(moves.contains(&sq("a3")));
    assert!(moves.contains(&sq("c3")));
}

#[test]
fn blocked_rook_has_no_moves() {
    let board = BoardState::new();
    assert!(board.get_rook_moves(sq("a1")).is_empty());
    assert!(board.get_queen_moves(sq("d1")).is_empty());
}

#[test]
fn pseudo_moves_never_target_own_piece() {
    let board = BoardState::from_fen("r3k2r/1b4q1/2n5/3pP3/8/2N5/PPP2PPP/R1BQK2R w KQkq d6 0 9")
        .unwrap();
    for index in 0..64 {
        let from = Position::position_from_indices(index);
        let mover = board.get_piece_at_position(from);
        for target in board.get_piece_moves_disregarding_checks(from) {
            let occupant = board.get_piece_at_position(target);
            assert!(!chess_engine::piece::is_same_color(mover, occupant));
        }
    }
}

#[test]
fn slider_stops_at_first_occupied_square() {
    let board = BoardState::from_fen("4k3/8/8/8/1R2p3/8/8/4K3 w - - 0 1").unwrap();
    let moves = board.get_rook_moves(sq("b4"));
    // Rightward: the empty squares, then the black pawn as a capture.
    assert!(moves.contains(&sq("c4")));
    assert!(moves.contains(&sq("d4")));
    assert!(moves.contains(&sq("e4")));
    // Never past the first occupied square.
    assert!(!moves.contains(&sq("f4")));
    assert!(!moves.contains(&sq("g4")));
    assert!(!moves.contains(&sq("h4")));
    // The other three directions are open.
    assert!(moves.contains(&sq("a4")));
    assert!(moves.contains(&sq("b8")));
    assert!(moves.contains(&sq("b1")));
}

#[test]
fn reverse_move_restores_board_but_not_position() {
    let board = BoardState::new();
    let there = apply(&board, "g1", "f3");
    let back = apply(&there, "f3", "g1");
    // The board contents round-trip for a plain quiet move...
    assert_eq!(back.str(), board.str());
    assert_eq!(back.color_to_move, board.color_to_move);
    // ...but the position as a whole does not: the clocks moved on.
    assert_eq!(back.full_move_clock, board.full_move_clock + 1);
    assert_ne!(back.to_fen(), board.to_fen());
}

#[test]
fn rights_revoked_on_king_move() {
    let board = BoardState::from_fen("r3k2r/8/8/8/8/8/8/R3K2R w KQkq - 0 1").unwrap();
    let board = apply(&board, "e1", "e2");
    assert!(!board.castling_rights.white_kingside);
    assert!(!board.castling_rights.white_queenside);
    assert!(board.castling_rights.black_kingside);
    assert!(board.castling_rights.black_queenside);
}

#[test]
fn rights_revoked_on_rook_move() {
    let board = BoardState::from_fen("r3k2r/8/8/8/8/8/8/R3K2R w KQkq - 0 1").unwrap();
    let board = apply(&board, "a1", "a4");
    assert!(!board.castling_rights.white_queenside);
    assert!(board.castling_rights.white_kingside);
}

#[test]
fn rights_revoked_on_rook_capture() {
    let board = BoardState::from_fen("r3k2r/8/8/8/8/8/8/R3K2R b KQkq - 0 1").unwrap();
    let board = apply(&board, "h8", "h1");
    assert_eq!(board.to_fen(), "r3k3/8/8/8/8/8/8/R3K2r w Qq - 0 2");
}

#[test]
fn pawn_move_and_capture_reset_half_move_clock() {
    let board = BoardState::from_fen("4k3/8/8/8/1R2p3/8/8/4K3 w - - 7 20").unwrap();
    let quiet = apply(&board, "b4", "b5");
    assert_eq!(quiet.half_move_clock, 8);
    let capture = apply(&board, "b4", "e4");
    assert_eq!(capture.half_move_clock, 0);
    let start = BoardState::from_fen("rnbqkbnr/pppppppp/8/8/8/8/PPPPPPPP/RNBQKBNR w KQkq - 5 9")
        .unwrap();
    let pawn = apply(&start, "e2", "e3");
    assert_eq!(pawn.half_move_clock, 0);
}

#[test]
fn full_move_clock_advances_after_black() {
    let board = BoardState::new();
    let board = apply(&board, "e2", "e4");
    assert_eq!(board.full_move_clock, 1);
    let board = apply(&board, "e7", "e5");
    assert_eq!(board.full_move_clock, 2);
}

#[test]
fn attack_oracle_sees_knight_and_not_ghosts() {
    let board = BoardState::new();
    // f3 is covered by the knight on g1 (and the e2/g2 pawns).
    assert!(board.is_position_attacked(sq("f3"), Color::Black));
    // No black piece reaches f3 from the starting rank.
    assert!(!board.is_position_attacked(sq("f3"), Color::White));
}

#[test]
fn well_formedness_check() {
    assert!(BoardState::new().is_well_formed());
    let no_kings = BoardState::from_fen("8/8/8/8/8/8/8/8 w - - 0 1").unwrap();
    assert!(!no_kings.is_well_formed());
    // An en-passant target on the wrong rank for the side to move.
    let bad_ep = BoardState::from_fen("4k3/8/8/8/8/8/8/4K3 w KQkq e3 0 1").unwrap();
    assert!(!bad_ep.is_well_formed());
}
