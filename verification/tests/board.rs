use chess_core::board::Board;
use chess_core::move_generation::Move;
use chess_core::piece::{Color, Piece};
use chess_core::square::Square;


#[test]
fn test_starting_position_board_config() {
    let board = Board::starting_position();
    assert!(board.is_piece_at_square(Square::A1.as_index(), Piece::Rook, Color::White));
    assert!(board.is_piece_at_square(Square::B1.as_index(), Piece::Knight, Color::White));
    assert!(board.is_piece_at_square(Square::C1.as_index(), Piece::Bishop, Color::White));
    assert!(board.is_piece_at_square(Square::D1.as_index(), Piece::Queen, Color::White));
    assert!(board.is_piece_at_square(Square::E1.as_index(), Piece::King, Color::White));
    assert!(board.is_piece_at_square(Square::F1.as_index(), Piece::Bishop, Color::White));
    assert!(board.is_piece_at_square(Square::G1.as_index(), Piece::Knight, Color::White));
    assert!(board.is_piece_at_square(Square::H1.as_index(), Piece::Rook, Color::White));

    for i in Square::A2 as usize..=Square::H2 as usize {
        assert_eq!(board.squares[i], Some(Piece::Pawn));
        assert_eq!(board.colors[i], Some(Color::White))
    }

    for i in Square::A3 as usize..=Square::H6 as usize {
        assert_eq!(board.squares[i], None);
    }

    for i in Square::A7 as usize..=Square::H7 as usize {
        assert_eq!(board.squares[i], Some(Piece::Pawn));
        assert_eq!(board.colors[i], Some(Color::Black))
    }

    assert!(board.is_piece_at_square(Square::A8.as_index(), Piece::Rook, Color::Black));
    assert!(board.is_piece_at_square(Square::B8.as_index(), Piece::Knight, Color::Black));
    assert!(board.is_piece_at_square(Square::C8.as_index(), Piece::Bishop, Color::Black));
    assert!(board.is_piece_at_square(Square::D8.as_index(), Piece::Queen, Color::Black));
    assert!(board.is_piece_at_square(Square::E8.as_index(), Piece::King, Color::Black));
    assert!(board.is_piece_at_square(Square::F8.as_index(), Piece::Bishop, Color::Black));
    assert!(board.is_piece_at_square(Square::G8.as_index(), Piece::Knight, Color::Black));
    assert!(board.is_piece_at_square(Square::H8.as_index(), Piece::Rook, Color::Black));

    assert_eq!(board.to_move, Color::White);
    assert_eq!(board.en_passant_square, None);
    assert!(board.can_white_king_side_castle);
    assert!(board.can_white_queen_side_castle);
    assert!(board.can_black_king_side_castle);
    assert!(board.can_black_queen_side_castle);
    assert_eq!(board.half_move_clock, 0);
    assert_eq!(board.full_move_number, 1);
}

#[test]
fn test_from_fen_empty_board() {
    let empty_board = Board::default();
    let empty_board_from_fen = Board::from_fen("8/8/8/8/8/8/8/8 w - - 0 1").unwrap();

    assert_eq!(empty_board, empty_board_from_fen);
}

#[test]
fn test_from_fen_sicilian_defense() {
    let mut starting_board = Board::starting_position();
    // move_piece leaves the clocks alone.
    starting_board.half_move_clock = 1;
    starting_board.full_move_number = 2;
    starting_board.move_piece(Move::from_square(Square::E2, Square::E4));
    starting_board.move_piece(Move::from_square(Square::C7, Square::C5));
    starting_board.move_piece(Move::from_square(Square::G1, Square::F3));

    // Position after 1. e4, c5 => 2. Nf3
    let created_board =
        Board::from_fen("rnbqkbnr/pp1ppppp/8/2p5/4P3/5N2/PPPP1PPP/RNBQKB1R b KQkq - 1 2")
            .unwrap();

    assert_eq!(starting_board, created_board)
}

#[test]
fn test_from_puzzle_fen() {
    let mut board = Board {
        half_move_clock: 1,
        full_move_number: 31,
        ..Default::default()
    };

    board.put_piece(Square::D1.as_index(), Piece::Bishop, Color::Black);
    board.put_piece(Square::A2.as_index(), Piece::Pawn, Color::White);
    board.put_piece(Square::B2.as_index(), Piece::Pawn, Color::White);
    board.put_piece(Square::F2.as_index(), Piece::King, Color::White);
    board.put_piece(Square::H2.as_index(), Piece::Pawn, Color::White);
    board.put_piece(Square::D4.as_index(), Piece::Pawn, Color::White);
    board.put_piece(Square::E4.as_index(), Piece::Pawn, Color::Black);
    board.put_piece(Square::A6.as_index(), Piece::Pawn, Color::Black);
    board.put_piece(Square::G6.as_index(), Piece::Pawn, Color::Black);
    board.put_piece(Square::B7.as_index(), Piece::Pawn, Color::Black);
    board.put_piece(Square::E7.as_index(), Piece::Pawn, Color::Black);
    board.put_piece(Square::C7.as_index(), Piece::Rook, Color::White);
    board.put_piece(Square::H7.as_index(), Piece::Pawn, Color::Black);
    board.put_piece(Square::F8.as_index(), Piece::King, Color::Black);

    let created_board =
        Board::from_fen("5k2/1pR1p2p/p5p1/8/3Pp3/8/PP3K1P/3b4 w - - 1 31").unwrap();

    assert_eq!(board, created_board);
}

#[test]
fn test_from_fen_invalid_piece_position_char() {
    let board = Board::from_fen("9/8/8/8/8/8/8/8 w - - 0 1");

    assert_eq!(board.err().unwrap().to_string(), "invalid piece symbol in FEN")
}

#[test]
fn test_from_fen_invalid_to_move_color() {
    let board = Board::from_fen("8/8/8/8/8/8/8/8 - - - 0 1");

    assert_eq!(
        board.err().unwrap().to_string(),
        "failed to parse active board color, must be 'b' or 'w'."
    )
}

#[test]
fn test_from_fen_invalid_half_move_clock() {
    let board = Board::from_fen("8/8/8/8/8/8/8/8 w - - -1 1");

    assert_eq!(
        board.err().unwrap().to_string(),
        "failed to parse half move clock from fen"
    )
}

#[test]
fn test_from_fen_invalid_full_move_number() {
    let board = Board::from_fen("8/8/8/8/8/8/8/8 w - - 1 -1");

    assert_eq!(
        board.err().unwrap().to_string(),
        "failed to parse full move number from fen"
    )
}

#[test]
fn test_from_fen_invalid_castling_rights() {
    let board = Board::from_fen("8/8/8/8/8/8/8/8 w bw - 1 1");

    assert_eq!(
        board.err().unwrap().to_string(),
        "invalid castling rights in fen, must be a combination of 'K', 'Q', 'k', and 'q' or '-'"
    )
}

#[test]
fn test_parse_en_passant_square_none() {
    let field = "-";
    let index = Board::parse_en_passant_square(field);
    assert_eq!(index.unwrap(), None);
}

#[test]
fn test_parse_en_passant_square_a1() {
    let field = "a1";
    let index = Board::parse_en_passant_square(field);
    assert_eq!(index.unwrap(), Some(Square::A1 as usize));
}

#[test]
fn test_parse_en_passant_square_e4() {
    let field = "e4";
    let index = Board::parse_en_passant_square(field);
    assert_eq!(index.unwrap(), Some(Square::E4 as usize));
}

#[test]
fn test_parse_en_passant_square_f7() {
    let field = "f7";
    let index = Board::parse_en_passant_square(field);
    assert_eq!(index.unwrap(), Some(Square::F7 as usize));
}

#[test]
fn test_parse_en_passant_square_h8() {
    let field = "h8";
    let index = Board::parse_en_passant_square(field);
    assert_eq!(index.unwrap(), Some(Square::H8 as usize));
}

#[test]
fn test_parse_en_passant_square_invalid_file() {
    let field = "-7";
    let index = Board::parse_en_passant_square(field);
    assert!(index.is_err());
    assert_eq!(index.err().unwrap().to_string(), "Invalid square string: -7")
}

#[test]
fn test_parse_en_passant_square_missing_rank() {
    let field = "h";
    let index = Board::parse_en_passant_square(field);
    assert!(index.is_err());
    assert_eq!(index.err().unwrap().to_string(), "Invalid square string: h")
}

#[test]
fn test_parse_en_passant_square_invalid_rank() {
    let field = "hh";
    let index = Board::parse_en_passant_square(field);
    assert!(index.is_err());
    assert_eq!(index.err().unwrap().to_string(), "Invalid square string: hh")
}

#[test]
fn test_to_fen_empty_board() {
    let board = Board::default();
    assert_eq!(board.to_fen(), "8/8/8/8/8/8/8/8 w - - 0 1");
}

#[test]
fn test_to_fen_starting_position() {
    let board = Board::starting_position();
    assert_eq!(
        board.to_fen(),
        "rnbqkbnr/pppppppp/8/8/8/8/PPPPPPPP/RNBQKBNR w KQkq - 0 1"
    );
}

#[test]
fn test_to_fen_italian_game() {
    let mut board = Board::starting_position();

    board.move_piece(Move::from_square(Square::E2, Square::E4));
    board.move_piece(Move::from_square(Square::E7, Square::E5));
    board.move_piece(Move::from_square(Square::G1, Square::F3));
    board.move_piece(Move::from_square(Square::B8, Square::C6));
    board.move_piece(Move::from_square(Square::F1, Square::C4));
    // move_piece leaves the clocks alone.
    board.half_move_clock = 3;
    board.full_move_number = 3;

    assert_eq!(
        board.to_fen(),
        "r1bqkbnr/pppp1ppp/2n5/4p3/2B1P3/5N2/PPPP1PPP/RNBQK2R b KQkq - 3 3"
    )
}

#[test]
fn test_to_fen_advanced_caro_kann() {
    let mut board = Board::starting_position();

    board.move_piece(Move::from_square(Square::E2, Square::E4));
    board.move_piece(Move::from_square(Square::C7, Square::C6));
    board.move_piece(Move::from_square(Square::D2, Square::D4));
    board.move_piece(Move::from_square(Square::D7, Square::D5));
    board.move_piece(Move::from_square(Square::E4, Square::E5));
    board.move_piece(Move::from_square(Square::C8, Square::F5));
    board.move_piece(Move::from_square(Square::F1, Square::E2));
    board.move_piece(Move::from_square(Square::E7, Square::E6));
    board.move_piece(Move::from_square(Square::G1, Square::F3));
    board.move_piece(Move::from_square(Square::C6, Square::C5));
    board.move_piece(Move::from_square(Square::C1, Square::E3));
    // move_piece leaves the clocks alone.
    board.half_move_clock = 1;
    board.full_move_number = 6;

    assert_eq!(
        board.to_fen(),
        "rn1qkbnr/pp3ppp/4p3/2ppPb2/3P4/4BN2/PPP1BPPP/RN1QK2R b KQkq - 1 6"
    )
}

#[test]
fn test_to_fen_marshall_attack() {
    let mut board = Board::starting_position();

    board.move_piece(Move::from_square(Square::E2, Square::E4));
    board.move_piece(Move::from_square(Square::E7, Square::E5));
    board.move_piece(Move::from_square(Square::G1, Square::F3));
    board.move_piece(Move::from_square(Square::B8, Square::C6));
    board.move_piece(Move::from_square(Square::F1, Square::B5));
    board.move_piece(Move::from_square(Square::A7, Square::A6));
    board.move_piece(Move::from_square(Square::B5, Square::A4));
    board.move_piece(Move::from_square(Square::G8, Square::F6));
    // Castling, as a king move and a rook move.
    board.move_piece(Move::from_square(Square::E1, Square::G1));
    board.move_piece(Move::from_square(Square::H1, Square::F1));
    board.move_piece(Move::from_square(Square::F8, Square::E7));
    board.move_piece(Move::from_square(Square::F1, Square::E1));
    board.move_piece(Move::from_square(Square::B7, Square::B5));
    board.move_piece(Move::from_square(Square::A4, Square::B3));
    // Castling, as a king move and a rook move.
    board.move_piece(Move::from_square(Square::E8, Square::G8));
    board.move_piece(Move::from_square(Square::H8, Square::F8));
    board.move_piece(Move::from_square(Square::C2, Square::C3));
    board.move_piece(Move::from_square(Square::D7, Square::D5));

    // move_piece leaves the clocks alone.
    board.half_move_clock = 0;
    board.full_move_number = 9;

    // move_piece leaves the castling rights alone.
    board.can_white_king_side_castle = false;
    board.can_white_queen_side_castle = false;
    board.can_black_king_side_castle = false;
    board.can_black_queen_side_castle = false;

    assert_eq!(
        board.to_fen(),
        "r1bq1rk1/2p1bppp/p1n2n2/1p1pp3/4P3/1BP2N2/PP1P1PPP/RNBQR1K1 w - - 0 9"
    )
}
