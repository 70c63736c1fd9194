use chess_core::board::{Board, BoardErrorKind};
use chess_core::move_generation::{Move, MoveGenerator};
use chess_core::piece::{Color, Piece};
use chess_core::square::{square_index_of, square_name_of, Square};
use chess_core::text::{
    chars_of, is_whitespace_char, parse_decimal, push_decimal, split_words, string_of,
};

fn fen_of(text: &str) -> String {
    Board::from_fen(text).unwrap().to_fen()
}

fn kind_of(text: &str) -> BoardErrorKind {
    Board::from_fen(text).err().unwrap().kind
}

fn moves_of(fen: &str) -> Vec<(usize, usize)> {
    let mut generator = MoveGenerator::new(Board::from_fen(fen).unwrap());
    generator
        .generate_moves()
        .iter()
        .map(|m| (m.starting_square, m.target_square))
        .collect()
}

fn sq(name: &str) -> usize {
    Square::from_algebraic_notation(name).unwrap().as_index()
}

#[test]
fn round_trip_gives_the_same_board() {
    let texts = [
        "rnbqkbnr/pppppppp/8/8/8/8/PPPPPPPP/RNBQKBNR w KQkq - 0 1",
        "8/8/8/8/8/8/8/8 w - - 0 1",
        "rnbqkbnr/pp1ppppp/8/2p5/4P3/5N2/PPPP1PPP/RNBQKB1R b KQkq - 1 2",
        "5k2/1pR1p2p/p5p1/8/3Pp3/8/PP3K1P/3b4 w - - 1 31",
        "rnbqkbnr/pppp1ppp/8/4p3/4P3/8/PPPP1PPP/RNBQKBNR w Kq e6 0 2",
        "r3k2r/8/8/8/8/8/8/R3K2R b Qk h3 4294967295 0",
        "1p1p1p1p/p1p1p1p1/8/PPPPPPPP/7P/1P6/3PP3/PP5P w k a1 7 9",
    ];
    for text in texts {
        let board = Board::from_fen(text).unwrap();
        let again = Board::from_fen(&board.to_fen()).unwrap();
        assert_eq!(again, board);
        assert_eq!(board.to_fen(), text);
    }
}

#[test]
fn round_trip_after_moves() {
    let mut board = Board::starting_position();
    board.move_piece(Move::from_square(Square::E2, Square::E4));
    board.move_piece(Move::from_square(Square::D7, Square::D5));
    board.move_piece(Move::from_square(Square::E4, Square::D5));
    board.en_passant_square = Some(Square::D6.as_index());
    board.half_move_clock = 12;
    board.full_move_number = 345;
    let text = board.to_fen();
    assert_eq!(text, "rnbqkbnr/ppp1pppp/8/3P4/8/8/PPPP1PPP/RNBQKBNR b KQkq d6 12 345");
    assert_eq!(Board::from_fen(&text).unwrap(), board);
}

#[test]
fn starting_position_counts() {
    let board = Board::starting_position();
    for color in [Color::White, Color::Black] {
        let count = |piece: Piece| {
            (0..64).filter(|&i| board.is_piece_at_square(i, piece, color)).count()
        };
        assert_eq!(count(Piece::Pawn), 8);
        assert_eq!(count(Piece::Rook), 2);
        assert_eq!(count(Piece::Knight), 2);
        assert_eq!(count(Piece::Bishop), 2);
        assert_eq!(count(Piece::Queen), 1);
        assert_eq!(count(Piece::King), 1);
    }
    assert_eq!(
        board,
        Board::from_fen("rnbqkbnr/pppppppp/8/8/8/8/PPPPPPPP/RNBQKBNR w KQkq - 0 1").unwrap()
    );
}

#[test]
fn empty_board_has_nothing() {
    let board = Board::from_fen("8/8/8/8/8/8/8/8 w - - 0 1").unwrap();
    for i in 0..64 {
        assert!(board.is_square_empty(i));
        assert_eq!(board.piece_at(i), None);
    }
    assert!(!board.can_white_king_side_castle);
    assert!(!board.can_white_queen_side_castle);
    assert!(!board.can_black_king_side_castle);
    assert!(!board.can_black_queen_side_castle);
    assert_eq!(board.en_passant_square, None);
    assert_eq!(board.to_move, Color::White);
}

#[test]
fn each_kind_of_error() {
    assert_eq!(kind_of("8/8/8/8/8/8/8/7x w - - 0 1"), BoardErrorKind::InvalidPieceSymbol);
    assert_eq!(kind_of("8/8/8/8/8/8/8/8 white - - 0 1"), BoardErrorKind::InvalidActiveColor);
    assert_eq!(kind_of("8/8/8/8/8/8/8/8 w KQxq - 0 1"), BoardErrorKind::InvalidCastlingRights);
    assert_eq!(kind_of("8/8/8/8/8/8/8/8 w - - x 1"), BoardErrorKind::InvalidHalfmoveClock);
    assert_eq!(kind_of("8/8/8/8/8/8/8/8 w - - 0 x"), BoardErrorKind::InvalidFullmoveNumber);
    assert_eq!(kind_of("8/8/8/8/8/8/8/8 w - e9 0 1"), BoardErrorKind::InvalidSquare);
    assert_eq!(
        Board::from_fen("8/8/8/8/8/8/8/8 w - e9 0 1").err().unwrap().to_string(),
        "Invalid square string: e9"
    );
}

#[test]
fn errors_come_in_order() {
    assert_eq!(kind_of("x b? x zz -1 -1"), BoardErrorKind::InvalidPieceSymbol);
    assert_eq!(kind_of("8 b? x zz -1 -1"), BoardErrorKind::InvalidActiveColor);
    assert_eq!(kind_of("8 b x zz -1 -1"), BoardErrorKind::InvalidCastlingRights);
    assert_eq!(kind_of("8 b - zz -1 -1"), BoardErrorKind::InvalidHalfmoveClock);
    assert_eq!(kind_of("8 b - zz 1 -1"), BoardErrorKind::InvalidFullmoveNumber);
    assert_eq!(kind_of("8 b - zz 1 1"), BoardErrorKind::InvalidSquare);
}

#[test]
fn missing_fields_are_empty() {
    assert_eq!(kind_of(""), BoardErrorKind::InvalidActiveColor);
    assert_eq!(kind_of("8/8/8/8/8/8/8/8"), BoardErrorKind::InvalidActiveColor);
    assert_eq!(kind_of("8/8/8/8/8/8/8/8 w"), BoardErrorKind::InvalidHalfmoveClock);
    assert_eq!(kind_of("8/8/8/8/8/8/8/8 w -"), BoardErrorKind::InvalidHalfmoveClock);
    assert_eq!(kind_of("8/8/8/8/8/8/8/8 w - -"), BoardErrorKind::InvalidHalfmoveClock);
    assert_eq!(kind_of("8/8/8/8/8/8/8/8 w - - 0"), BoardErrorKind::InvalidFullmoveNumber);
    assert_eq!(fen_of("8/8/8/8/8/8/8/8 w - - 0 1 and more"), "8/8/8/8/8/8/8/8 w - - 0 1");
}

#[test]
fn placement_stays_on_the_board() {
    // A piece past the h-file, and a rank below the first.
    assert_eq!(kind_of("8/8p/8/8/8/8/8/8 w - - 0 1"), BoardErrorKind::InvalidPieceSymbol);
    assert_eq!(kind_of("ppppppppp/8/8/8/8/8/8/8 w - - 0 1"), BoardErrorKind::InvalidPieceSymbol);
    assert_eq!(kind_of("8/8/8/8/8/8/8/8/8 w - - 0 1"), BoardErrorKind::InvalidPieceSymbol);
    assert_eq!(kind_of("8/8/8/8/8/8/8/0 w - - 0 1"), BoardErrorKind::InvalidPieceSymbol);
    // Digits may run past the h-file, and ranks may be left out.
    assert_eq!(fen_of("88/8/8/8/8/8/8/8 w - - 0 1"), "8/8/8/8/8/8/8/8 w - - 0 1");
    assert_eq!(fen_of("k7/8 w - - 0 1"), "k7/8/8/8/8/8/8/8 w - - 0 1");
    assert_eq!(fen_of("3p31/8/8/8/8/8/8/8 w - - 0 1"), "3p4/8/8/8/8/8/8/8 w - - 0 1");
}

#[test]
fn castling_letters_in_any_order() {
    assert_eq!(fen_of("8/8/8/8/8/8/8/8 w qkQK - 0 1"), "8/8/8/8/8/8/8/8 w KQkq - 0 1");
    assert_eq!(fen_of("8/8/8/8/8/8/8/8 w k-k - 0 1"), "8/8/8/8/8/8/8/8 w k - 0 1");
    let board = Board::from_fen("8/8/8/8/8/8/8/8 w Qk - 0 1").unwrap();
    assert!(!board.can_white_king_side_castle);
    assert!(board.can_white_queen_side_castle);
    assert!(board.can_black_king_side_castle);
    assert!(!board.can_black_queen_side_castle);
}

#[test]
fn white_space_between_fields() {
    assert_eq!(
        fen_of("  8/8/8/8/8/8/8/8\tb \u{a0} -\n-\u{3000}3   4 \r\n"),
        "8/8/8/8/8/8/8/8 b - - 3 4"
    );
}

#[test]
fn words_are_split_as_the_standard_library_does() {
    let texts = [
        "",
        " ",
        "a",
        " a",
        "a ",
        "a b",
        "  one\ttwo\n\nthree  ",
        "\u{9}\u{a}\u{b}\u{c}\u{d}x\u{20}\u{85}y\u{a0}\u{1680}z",
        "a\u{2000}b\u{2001}c\u{2002}d\u{2003}e\u{2004}f\u{2005}g\u{2006}h\u{2007}i\u{2008}j\u{2009}k\u{200a}l",
        "m\u{2028}n\u{2029}o\u{202f}p\u{205f}q\u{3000}r",
        "not\u{200b}white\u{180e}space\u{feff}here\u{1f}x\u{e}y\u{8}z\u{200c}",
    ];
    for text in texts {
        let words: Vec<String> = split_words(&chars_of(text)).iter().map(string_of).collect();
        let expected: Vec<String> = text.split_whitespace().map(String::from).collect();
        assert_eq!(words, expected);
    }
}

#[test]
fn white_space_is_what_the_standard_library_says() {
    for code in 0..0x11_0000u32 {
        if let Some(c) = char::from_u32(code) {
            assert_eq!(is_whitespace_char(c), c.is_whitespace());
        }
    }
}

#[test]
fn numbers_are_read_as_the_standard_library_does() {
    let texts = [
        "", "0", "7", "10", "007", "+5", "+", "-1", "-0", "++1", "1+", "4294967295", "4294967296",
        "42949672950", "99999999999999999999", "12a", " 1", "1 ", "1_000", "٣", "+0000000000001",
    ];
    for text in texts {
        assert_eq!(parse_decimal(&chars_of(text)), text.parse::<u32>().ok());
    }
}

#[test]
fn numbers_are_written_as_the_standard_library_does() {
    for n in [0u32, 1, 9, 10, 11, 99, 100, 101, 4096, 1_000_000, 4294967294, u32::MAX] {
        let mut out = vec!['#'];
        push_decimal(&mut out, n);
        assert_eq!(string_of(&out), format!("#{n}"));
        assert_eq!(parse_decimal(&out[1..].to_vec()), Some(n));
    }
}

#[test]
fn strings_and_characters() {
    assert_eq!(chars_of("a1 ♞"), vec!['a', '1', ' ', '♞']);
    assert_eq!(string_of(&vec!['a', '1', ' ', '♞']), "a1 ♞");
    assert_eq!(string_of(&Vec::new()), "");
}

#[test]
fn squares_by_name_and_index() {
    let files = ['a', 'b', 'c', 'd', 'e', 'f', 'g', 'h'];
    let ranks = ['1', '2', '3', '4', '5', '6', '7', '8'];
    for index in 0..64usize {
        let name = vec![files[index % 8], ranks[index / 8]];
        assert_eq!(square_name_of(index), name);
        assert_eq!(square_index_of(&name), Some(index));
        let square = Square::from_index(index);
        assert_eq!(square.as_index(), index);
        assert_eq!(square as usize, index);
        assert_eq!(square.to_algebraic_notation(), string_of(&name));
        assert_eq!(Square::from_algebraic_notation(&string_of(&name)).unwrap(), square);
    }
    assert_eq!(Square::E4.as_index(), 28);
    assert_eq!(Square::H8.to_algebraic_notation(), "h8");
    for text in ["", "e", "e44", "i4", "e0", "e9", "E4", "4e", "-", "e4 "] {
        let e = Square::from_algebraic_notation(text).err().unwrap();
        assert_eq!(e.kind, BoardErrorKind::InvalidSquare);
        assert_eq!(e.to_string(), format!("Invalid square string: {text}"));
    }
}

#[test]
fn symbols_of_pieces() {
    let kinds = [
        (Piece::Pawn, 'P', 'p'),
        (Piece::Knight, 'N', 'n'),
        (Piece::Bishop, 'B', 'b'),
        (Piece::Rook, 'R', 'r'),
        (Piece::Queen, 'Q', 'q'),
        (Piece::King, 'K', 'k'),
    ];
    for (kind, upper, lower) in kinds {
        assert_eq!(kind.to_symbol(Color::White), upper);
        assert_eq!(kind.to_symbol(Color::Black), lower);
        assert_eq!(Piece::from_symbol(upper).unwrap(), (kind, Color::White));
        assert_eq!(Piece::from_symbol(lower).unwrap(), (kind, Color::Black));
    }
    for c in ['x', '1', '/', ' ', 'a', 'O'] {
        let e = Piece::from_symbol(c).err().unwrap();
        assert_eq!(e.kind, BoardErrorKind::InvalidPieceSymbol);
        assert_eq!(e.to_string(), "invalid piece symbol in FEN");
    }
    assert_eq!(Color::White.opposite(), Color::Black);
    assert_eq!(Color::Black.opposite(), Color::White);
}

#[test]
fn move_piece_captures_and_passes_the_move() {
    let mut board = Board::from_fen("8/8/8/3p4/4P3/8/8/8 w Kq e3 5 6").unwrap();
    board.move_piece(Move::new(sq("e4"), sq("d5")));
    assert!(board.is_square_empty(sq("e4")));
    assert!(board.is_piece_at_square(sq("d5"), Piece::Pawn, Color::White));
    assert_eq!(board.to_fen(), "8/8/8/3P4/8/8/8/8 b Kq e3 5 6");
}

#[test]
fn put_piece_replaces() {
    let mut board = Board::default();
    board.put_piece(0, Piece::Rook, Color::White);
    board.put_piece(0, Piece::Queen, Color::Black);
    board.put_piece(63, Piece::King, Color::White);
    assert_eq!(board.piece_at(0), Some((Piece::Queen, Color::Black)));
    assert!(!board.is_piece_at_square(0, Piece::Rook, Color::White));
    assert!(!board.is_square_empty(63));
    assert!(board.is_square_empty(1));
    assert_eq!(board.to_fen(), "7K/8/8/8/8/8/8/q7 w - - 0 1");
}

#[test]
fn diagram_rows() {
    let rows = Board::starting_position().diagram();
    let texts: Vec<String> = rows.iter().map(string_of).collect();
    assert_eq!(
        texts,
        vec![
            "rnbqkbnr", "pppppppp", "        ", "        ", "        ", "        ", "PPPPPPPP",
            "RNBQKBNR"
        ]
    );
}

#[test]
fn edge_distances_of_every_square() {
    let generator = MoveGenerator::new(Board::default());
    assert_eq!(generator.direction_offsets, [8, -8, -1, 1, 7, -7, 9, -9]);
    for square in 0..64usize {
        let (file, rank) = (square % 8, square / 8);
        let (north, south, west, east) = (7 - rank, rank, file, 7 - file);
        assert_eq!(
            generator.num_squares_to_edge[square],
            [
                north,
                south,
                west,
                east,
                north.min(west),
                south.min(east),
                north.min(east),
                south.min(west)
            ]
        );
    }
    assert_eq!(MoveGenerator::precompute_move_data(), generator.num_squares_to_edge);
}

#[test]
fn moves_of_the_starting_position() {
    let mut generator = MoveGenerator::default();
    let moves = generator.generate_moves();
    assert_eq!(moves.len(), 20);
    assert_eq!(generator.moves, moves);
    // A second call starts afresh.
    assert_eq!(generator.generate_moves(), moves);
    assert_eq!(generator.moves.len(), 20);
    let mut expected = vec![
        (sq("b1"), sq("a3")),
        (sq("b1"), sq("c3")),
        (sq("g1"), sq("f3")),
        (sq("g1"), sq("h3")),
    ];
    for file in 0..8 {
        expected.push((8 + file, 16 + file));
        expected.push((8 + file, 24 + file));
    }
    assert_eq!(moves_of("rnbqkbnr/pppppppp/8/8/8/8/PPPPPPPP/RNBQKBNR w KQkq - 0 1"), expected);
}

#[test]
fn moves_come_in_order() {
    // Rook: north, south, west, east. Bishop: the four diagonals.
    assert_eq!(
        moves_of("8/8/8/8/3R4/8/8/8 w - - 0 1"),
        vec![
            (27, 35), (27, 43), (27, 51), (27, 59), (27, 19), (27, 11), (27, 3), (27, 26),
            (27, 25), (27, 24), (27, 28), (27, 29), (27, 30), (27, 31)
        ]
    );
    assert_eq!(
        moves_of("8/8/8/8/8/8/1b6/8 b - - 0 1"),
        vec![(9, 16), (9, 2), (9, 18), (9, 27), (9, 36), (9, 45), (9, 54), (9, 63), (9, 0)]
    );
    // Knight: the jumps in rising order of the index.
    assert_eq!(
        moves_of("8/8/8/8/3N4/8/8/8 w - - 0 1"),
        vec![(27, 10), (27, 12), (27, 17), (27, 21), (27, 33), (27, 37), (27, 42), (27, 44)]
    );
    // Pawn: push, captures, double push.
    assert_eq!(
        moves_of("8/8/8/8/8/n1n5/1P6/8 w - - 0 1"),
        vec![(9, 17), (9, 16), (9, 18), (9, 25)]
    );
    assert_eq!(
        moves_of("8/1p6/N1N5/8/8/8/8/8 b - - 0 1"),
        vec![(49, 41), (49, 42), (49, 40), (49, 33)]
    );
}

#[test]
fn queen_in_the_corner() {
    let moves = moves_of("Qr5k/r7/2N5/8/8/8/8/6K1 w - - 0 1");
    let of_queen: Vec<_> = moves.iter().filter(|m| m.0 == sq("a8")).collect();
    assert_eq!(of_queen, vec![&(56, 48), &(56, 57), &(56, 49)]);
    // With rooks of her own colour there, only the diagonal is left, and it
    // ends before the knight.
    let moves = moves_of("QR5k/R7/2N5/8/8/8/8/6K1 w - - 0 1");
    let of_queen: Vec<_> = moves.iter().filter(|m| m.0 == sq("a8")).collect();
    assert_eq!(of_queen, vec![&(56, 49)]);
}

#[test]
fn knight_in_the_corner() {
    let mut board = Board::default();
    board.put_piece(Square::A1.as_index(), Piece::King, Color::White);
    board.put_piece(Square::H1.as_index(), Piece::Knight, Color::White);
    board.put_piece(Square::H8.as_index(), Piece::King, Color::Black);
    let mut generator = MoveGenerator::new(board);
    let moves = generator.generate_moves();
    assert_eq!(
        moves,
        vec![
            Move::from_square(Square::H1, Square::F2),
            Move::from_square(Square::H1, Square::G3)
        ]
    );
}

#[test]
fn knights_never_wrap() {
    for from in 0..64usize {
        let mut board = Board::default();
        board.put_piece(from, Piece::Knight, Color::White);
        let mut generator = MoveGenerator::new(board);
        let moves = generator.generate_moves();
        let (file, rank) = ((from % 8) as i32, (from / 8) as i32);
        let mut count = 0;
        for (df, dr) in [(-1, -2), (1, -2), (-2, -1), (2, -1), (-2, 1), (2, 1), (-1, 2), (1, 2)] {
            let (f, r) = (file + df, rank + dr);
            if (0..8).contains(&f) && (0..8).contains(&r) {
                assert_eq!(moves[count], Move::new(from, (8 * r + f) as usize));
                count += 1;
            }
        }
        assert_eq!(moves.len(), count);
    }
}

#[test]
fn pawns_on_the_edge_files() {
    let mut board = Board::default();
    board.put_piece(Square::H4.as_index(), Piece::Pawn, Color::White);
    board.put_piece(Square::G5.as_index(), Piece::Pawn, Color::Black);
    board.put_piece(Square::A6.as_index(), Piece::Pawn, Color::Black);
    let mut generator = MoveGenerator::new(board);
    generator.generate_pawn_moves(Square::H4.as_index());
    assert_eq!(
        generator.moves,
        vec![
            Move::from_square(Square::H4, Square::H5),
            Move::from_square(Square::H4, Square::G5)
        ]
    );
    assert!(!generator.generated_move(Square::H4, Square::A6));
}

#[test]
fn pawns_at_the_far_ranks() {
    // A push on to the last rank would promote and is not generated; a
    // capture there is.
    assert_eq!(moves_of("2n5/1P6/8/8/8/8/8/8 w - - 0 1"), vec![(49, 58)]);
    assert_eq!(moves_of("8/8/8/8/8/8/7p/6N1 b - - 0 1"), vec![(15, 6)]);
    // Pawns on the last rank, and in the corners, have no square ahead.
    assert_eq!(moves_of("P6P/8/8/8/8/8/8/8 w - - 0 1"), vec![]);
    assert_eq!(moves_of("8/8/8/8/8/8/8/p6p b - - 0 1"), vec![]);
    assert_eq!(moves_of("7n/7P/8/8/8/8/8/8 w - - 0 1"), vec![]);
    assert_eq!(moves_of("8/8/8/8/8/8/p7/N7 b - - 0 1"), vec![]);
}

#[test]
fn no_double_push_off_the_home_rank() {
    for rank in 0..8usize {
        for (color, letter, home) in [(Color::White, 'w', 1), (Color::Black, 'b', 6)] {
            let mut board =
                Board::from_fen(&format!("8/8/8/8/8/8/8/8 {letter} - - 0 1")).unwrap();
            let from = 8 * rank + 4;
            board.put_piece(from, Piece::Pawn, color);
            let mut generator = MoveGenerator::new(board);
            generator.generate_pawn_moves(from);
            let two_ranks: Vec<&Move> = generator
                .moves
                .iter()
                .filter(|m| m.target_square.abs_diff(m.starting_square) == 16)
                .collect();
            assert_eq!(two_ranks.len(), if rank == home { 1 } else { 0 });
        }
    }
}

#[test]
fn the_other_side_has_no_moves() {
    assert_eq!(moves_of("8/8/8/8/3R4/8/8/8 b - - 0 1"), vec![]);
    assert_eq!(moves_of("8/8/8/8/3k4/8/8/8 b - - 0 1"), vec![]);
}

#[test]
fn generated_move_looks_in_the_list() {
    let mut generator = MoveGenerator::default();
    assert!(!generator.generated_move(Square::B1, Square::C3));
    generator.generate_knight_moves(Square::B1.as_index());
    assert!(generator.generated_move(Square::B1, Square::C3));
    assert!(generator.generated_move(Square::B1, Square::A3));
    assert!(!generator.generated_move(Square::C3, Square::B1));
    assert!(!generator.generated_move(Square::B1, Square::D2));
}

/// A small generator of numbers that look random, the same on every run.
struct Dice(u64);

impl Dice {
    fn roll(&mut self, sides: u64) -> u64 {
        self.0 = self.0.wrapping_mul(6364136223846793005).wrapping_add(1442695040888963407);
        (self.0 >> 33) % sides
    }

    fn board(&mut self) -> Board {
        let kinds = [
            Piece::Pawn,
            Piece::Knight,
            Piece::Bishop,
            Piece::Rook,
            Piece::Queen,
            Piece::King,
        ];
        let mut board = Board::default();
        for square in 0..64 {
            if self.roll(3) == 0 {
                let kind = kinds[self.roll(6) as usize];
                let color = if self.roll(2) == 0 { Color::White } else { Color::Black };
                board.put_piece(square, kind, color);
            }
        }
        board.to_move = if self.roll(2) == 0 { Color::White } else { Color::Black };
        board.can_white_king_side_castle = self.roll(2) == 0;
        board.can_white_queen_side_castle = self.roll(2) == 0;
        board.can_black_king_side_castle = self.roll(2) == 0;
        board.can_black_queen_side_castle = self.roll(2) == 0;
        board.en_passant_square = match self.roll(65) {
            64 => None,
            square => Some(square as usize),
        };
        board.half_move_clock = self.roll(1 << 32) as u32;
        board.full_move_number = self.roll(1 << 32) as u32;
        board
    }
}

/// The moves of a position, found square by square with files and ranks.
fn moves_by_files_and_ranks(board: &Board) -> Vec<(usize, usize)> {
    let at = |file: i32, rank: i32| -> Option<Option<(Piece, Color)>> {
        if (0..8).contains(&file) && (0..8).contains(&rank) {
            Some(board.piece_at((8 * rank + file) as usize))
        } else {
            None
        }
    };
    let us = board.to_move;
    let ahead = if us == Color::White { 1 } else { -1 };
    let home = if us == Color::White { 1 } else { 6 };
    let mut moves = Vec::new();
    for from in 0..64usize {
        let (file, rank) = ((from % 8) as i32, (from / 8) as i32);
        let mut add = |f: i32, r: i32| moves.push((from, (8 * r + f) as usize));
        let kind = match board.piece_at(from) {
            Some((kind, color)) if color == us => kind,
            _ => continue,
        };
        let lines: &[(i32, i32)] = match kind {
            Piece::Rook => &[(0, 1), (0, -1), (-1, 0), (1, 0)],
            Piece::Bishop => &[(-1, 1), (1, -1), (1, 1), (-1, -1)],
            Piece::Queen => {
                &[(0, 1), (0, -1), (-1, 0), (1, 0), (-1, 1), (1, -1), (1, 1), (-1, -1)]
            }
            _ => &[],
        };
        for (df, dr) in lines {
            let (mut f, mut r) = (file + df, rank + dr);
            while let Some(there) = at(f, r) {
                match there {
                    None => add(f, r),
                    Some((_, color)) => {
                        if color != us {
                            add(f, r);
                        }
                        break;
                    }
                }
                f += df;
                r += dr;
            }
        }
        if kind == Piece::Knight {
            for (df, dr) in [(-1, -2), (1, -2), (-2, -1), (2, -1), (-2, 1), (2, 1), (-1, 2), (1, 2)]
            {
                match at(file + df, rank + dr) {
                    Some(Some((_, color))) if color == us => {}
                    Some(_) => add(file + df, rank + dr),
                    None => {}
                }
            }
        }
        if kind == Piece::Pawn {
            let free = at(file, rank + ahead) == Some(None);
            if free && rank + ahead != 0 && rank + ahead != 7 {
                add(file, rank + ahead);
            }
            for df in [-ahead, ahead] {
                if let Some(Some((_, color))) = at(file + df, rank + ahead) {
                    if color != us {
                        add(file + df, rank + ahead);
                    }
                }
            }
            if free && rank == home && at(file, rank + 2 * ahead) == Some(None) {
                add(file, rank + 2 * ahead);
            }
        }
    }
    moves
}

#[test]
fn moves_of_many_boards() {
    let mut dice = Dice(2024);
    for _ in 0..300 {
        let board = dice.board();
        let expected = moves_by_files_and_ranks(&board);
        let mut generator = MoveGenerator::new(board);
        let moves: Vec<(usize, usize)> = generator
            .generate_moves()
            .iter()
            .map(|m| (m.starting_square, m.target_square))
            .collect();
        assert_eq!(moves, expected);
        let mut sorted = moves.clone();
        sorted.sort();
        sorted.dedup();
        assert_eq!(sorted.len(), moves.len());
    }
}

#[test]
fn round_trip_of_many_boards() {
    let mut dice = Dice(7);
    for _ in 0..300 {
        let board = dice.board();
        let text = board.to_fen();
        let again = Board::from_fen(&text).unwrap();
        assert_eq!(again, board);
        assert_eq!(again.to_fen(), text);
    }
}
