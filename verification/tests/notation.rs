use chess_engine::board::BoardState;
use chess_engine::fen::{char_from_piece, piece_from_char, FenError};
use chess_engine::piece::{
    is_opposite_color, is_piece_black, is_piece_white, is_same_color, Color, Piece, PieceKind,
};
use chess_engine::square::{is_index_out_of_bounds, is_position_out_of_bounds, Position};

const STARTING_FEN: &str = "rnbqkbnr/pppppppp/8/8/8/8/PPPPPPPP/RNBQKBNR w KQkq - 0 1";
const E4_FEN: &str = "rnbqkbnr/pppppppp/8/8/4P3/8/PPPP1PPP/RNBQKBNR b KQkq e3 0 1";

#[test]
fn square_notation_parses() {
    assert_eq!(Position::position_from_string("a1"), Some(Position { row: 0, col: 0 }));
    assert_eq!(Position::position_from_string("e4"), Some(Position { row: 3, col: 4 }));
    assert_eq!(Position::position_from_string("h8"), Some(Position { row: 7, col: 7 }));
    // The file letter is case-insensitive.
    assert_eq!(Position::position_from_string("E4"), Some(Position { row: 3, col: 4 }));
}

#[test]
fn square_notation_rejects_bad_text() {
    assert_eq!(Position::position_from_string(""), None);
    assert_eq!(Position::position_from_string("e"), None);
    assert_eq!(Position::position_from_string("e44"), None);
    assert_eq!(Position::position_from_string("i1"), None);
    assert_eq!(Position::position_from_string("a9"), None);
    assert_eq!(Position::position_from_string("a0"), None);
    assert_eq!(Position::position_from_string("4e"), None);
}

#[test]
fn square_names_round_trip() {
    for row in 0..8u8 {
        for col in 0..8u8 {
            let p = Position { row, col };
            let name = p.str();
            assert_eq!(Position::position_from_string(name.as_str()), Some(p));
        }
    }
    assert_eq!(Position { row: 3, col: 4 }.str(), "e4");
    assert_eq!(Position { row: 0, col: 0 }.str(), "a1");
}

#[test]
fn index_conversions() {
    assert_eq!(Position::index_from_position(Position { row: 0, col: 0 }), 0);
    assert_eq!(Position::index_from_position(Position { row: 3, col: 4 }), 28);
    assert_eq!(Position::index_from_position(Position { row: 7, col: 7 }), 63);
    let p = Position::position_from_indices(28);
    assert_eq!(p, Position { row: 3, col: 4 });
    for i in 0..64 {
        assert_eq!(Position::index_from_position(Position::position_from_indices(i)), i);
    }
}

#[test]
fn bounds_predicates() {
    assert!(!is_position_out_of_bounds(Position { row: 7, col: 7 }));
    assert!(is_position_out_of_bounds(Position { row: 8, col: 0 }));
    assert!(is_position_out_of_bounds(Position { row: 0, col: 8 }));
    assert!(!is_index_out_of_bounds(63));
    assert!(is_index_out_of_bounds(64));
}

#[test]
fn new_matches_starting_fen() {
    let built = BoardState::new();
    let parsed = BoardState::from_fen(STARTING_FEN).expect("starting FEN parses");
    assert_eq!(built.to_fen(), parsed.to_fen());
    assert_eq!(built.to_fen(), STARTING_FEN);
}

#[test]
fn fen_round_trips() {
    for fen in [STARTING_FEN, E4_FEN, "r3k2r/8/8/8/8/8/8/R3K2R w KQkq - 0 1",
        "k7/8/1Q6/8/8/8/8/7K b - - 13 99"] {
        let board = BoardState::from_fen(fen).expect("FEN parses");
        assert_eq!(board.to_fen(), fen);
    }
}

#[test]
fn fen_fields_are_read() {
    let board = BoardState::from_fen(E4_FEN).unwrap();
    assert_eq!(board.color_to_move, Color::Black);
    assert_eq!(board.en_passant_square, Some(Position { row: 2, col: 4 }));
    assert_eq!(board.half_move_clock, 0);
    assert_eq!(board.full_move_clock, 1);
    assert!(board.castling_rights.white_kingside);
    assert!(board.castling_rights.black_queenside);
    assert_eq!(
        board.get_piece_at_position(Position { row: 3, col: 4 }),
        Piece::Occupied(PieceKind::Pawn, Color::White)
    );
    assert_eq!(board.get_piece_at_position(Position { row: 1, col: 4 }), Piece::Empty);
}

#[test]
fn fen_wrong_field_count_rejected() {
    assert!(matches!(
        BoardState::from_fen(""),
        Err(FenError::WrongFieldCount)
    ));
    assert!(matches!(
        BoardState::from_fen("a b c d e"),
        Err(FenError::WrongFieldCount)
    ));
    assert!(matches!(
        BoardState::from_fen("8/8/8/8/8/8/8/8 w - - 0 1 extra"),
        Err(FenError::WrongFieldCount)
    ));
}

#[test]
fn fen_bad_placement_rejected() {
    // A malformed piece letter.
    assert!(matches!(
        BoardState::from_fen("rnbqkbnr/pppppppp/8/8/8/8/PPPPPPPP/RNBQKBNX w KQkq - 0 1"),
        Err(FenError::BadPlacement)
    ));
    // A rank with the wrong number of columns.
    assert!(matches!(
        BoardState::from_fen("rnbqkbnr/ppppppp/8/8/8/8/PPPPPPPP/RNBQKBNR w KQkq - 0 1"),
        Err(FenError::BadPlacement)
    ));
    // Too few ranks.
    assert!(matches!(
        BoardState::from_fen("8/8/8/8/8/8/8 w KQkq - 0 1"),
        Err(FenError::BadPlacement)
    ));
}

#[test]
fn fen_bad_side_rejected() {
    assert!(matches!(
        BoardState::from_fen("8/8/8/8/8/8/8/8 x - - 0 1"),
        Err(FenError::BadSideToMove)
    ));
    assert!(matches!(
        BoardState::from_fen("8/8/8/8/8/8/8/8 wb - - 0 1"),
        Err(FenError::BadSideToMove)
    ));
}

#[test]
fn fen_bad_castling_rejected() {
    assert!(matches!(
        BoardState::from_fen("8/8/8/8/8/8/8/8 w KX - 0 1"),
        Err(FenError::BadCastling)
    ));
    // Out of canonical order.
    assert!(matches!(
        BoardState::from_fen("8/8/8/8/8/8/8/8 w QK - 0 1"),
        Err(FenError::BadCastling)
    ));
    // Repeated letter.
    assert!(matches!(
        BoardState::from_fen("8/8/8/8/8/8/8/8 w KK - 0 1"),
        Err(FenError::BadCastling)
    ));
}

#[test]
fn fen_bad_en_passant_rejected() {
    assert!(matches!(
        BoardState::from_fen("8/8/8/8/8/8/8/8 w - e9 0 1"),
        Err(FenError::BadEnPassant)
    ));
    assert!(matches!(
        BoardState::from_fen("8/8/8/8/8/8/8/8 w - ee 0 1"),
        Err(FenError::BadEnPassant)
    ));
}

#[test]
fn fen_bad_clock_rejected() {
    assert!(matches!(
        BoardState::from_fen("8/8/8/8/8/8/8/8 w - - x 1"),
        Err(FenError::BadClock)
    ));
    assert!(matches!(
        BoardState::from_fen("8/8/8/8/8/8/8/8 w - - -1 1"),
        Err(FenError::BadClock)
    ));
    assert!(matches!(
        BoardState::from_fen("8/8/8/8/8/8/8/8 w - - 0 "),
        Err(FenError::BadClock)
    ));
    // One past the largest value that fits.
    assert!(matches!(
        BoardState::from_fen("8/8/8/8/8/8/8/8 w - - 4294967296 1"),
        Err(FenError::BadClock)
    ));
    let max = BoardState::from_fen("8/8/8/8/8/8/8/8 w - - 4294967295 007").unwrap();
    assert_eq!(max.half_move_clock, u32::MAX);
    assert_eq!(max.full_move_clock, 7);
}

#[test]
fn board_str_of_start() {
    let expected = "r n b q k b n r\n\
                    p p p p p p p p\n\
                    \u{20}              \n\
                    \u{20}              \n\
                    \u{20}              \n\
                    \u{20}              \n\
                    P P P P P P P P\n\
                    R N B Q K B N R ";
    assert_eq!(BoardState::new().str(), expected);
}

#[test]
fn full_state_str_of_start() {
    let expected = "r n b q k b n r\t\tTo move: white\n\
                    p p p p p p p p\t\tCastling rights: KQkq\n\
                    \u{20}              \t\tEn-passant-square: \n\
                    \u{20}              \t\tHalf move clock: 0\n\
                    \u{20}              \t\tFull move clock: 1\n\
                    \u{20}              \n\
                    P P P P P P P P\n\
                    R N B Q K B N R \n";
    assert_eq!(BoardState::new().full_state_str(), expected);
}

#[test]
fn full_state_str_shows_en_passant_target() {
    let board = BoardState::from_fen(E4_FEN).unwrap();
    let text = board.full_state_str();
    assert!(text.contains("To move: black"));
    assert!(text.contains("En-passant-square: e3"));
    assert!(text.contains("Full move clock: 1"));
}

#[test]
fn piece_letters_round_trip() {
    let pieces = [
        (Piece::Occupied(PieceKind::Pawn, Color::White), 'P'),
        (Piece::Occupied(PieceKind::Rook, Color::White), 'R'),
        (Piece::Occupied(PieceKind::Knight, Color::White), 'N'),
        (Piece::Occupied(PieceKind::Bishop, Color::White), 'B'),
        (Piece::Occupied(PieceKind::Queen, Color::White), 'Q'),
        (Piece::Occupied(PieceKind::King, Color::White), 'K'),
        (Piece::Occupied(PieceKind::Pawn, Color::Black), 'p'),
        (Piece::Occupied(PieceKind::Rook, Color::Black), 'r'),
        (Piece::Occupied(PieceKind::Knight, Color::Black), 'n'),
        (Piece::Occupied(PieceKind::Bishop, Color::Black), 'b'),
        (Piece::Occupied(PieceKind::Queen, Color::Black), 'q'),
        (Piece::Occupied(PieceKind::King, Color::Black), 'k'),
    ];
    for (piece, letter) in pieces {
        assert_eq!(char_from_piece(piece), letter);
        assert_eq!(piece_from_char(letter), Some(piece));
    }
    assert_eq!(char_from_piece(Piece::Empty), ' ');
    assert_eq!(piece_from_char('x'), None);
    assert_eq!(piece_from_char(' '), None);
}

#[test]
fn color_predicates() {
    let wp = Piece::Occupied(PieceKind::Pawn, Color::White);
    let bq = Piece::Occupied(PieceKind::Queen, Color::Black);
    let bk = Piece::Occupied(PieceKind::King, Color::Black);
    assert!(is_piece_white(wp));
    assert!(!is_piece_white(bq));
    assert!(!is_piece_white(Piece::Empty));
    assert!(is_piece_black(bq));
    assert!(!is_piece_black(Piece::Empty));
    assert!(is_same_color(bq, bk));
    assert!(!is_same_color(wp, bq));
    assert!(!is_same_color(Piece::Empty, bq));
    assert!(is_opposite_color(wp, bq));
    assert!(!is_opposite_color(bq, bk));
    assert!(!is_opposite_color(wp, Piece::Empty));
}
