//! Writing a position as FEN text and reading the text again gives the
//! position back.

use vstd::prelude::*;
use crate::board::{Board, BoardErrorKind, Position, Squares};
use crate::fen::{
    emit_active_color, emit_below, emit_castling, emit_en_passant, emit_fen, emit_files, emit_if,
    emit_placement, emit_ranks, emit_run, parse_active_color, parse_en_passant, parse_fen,
    parse_placement, scan_from, scan_start, scan_step, spaced, valid_castling, Scan,
};
use crate::piece::{lemma_symbol_round_trip, piece_symbol};
use crate::square::{file_of, lemma_square_name_round_trip, rank_of, square_at, square_name};
use crate::text::{
    decimal, digit_char, lemma_decimal, lemma_decimal_round_trip, lemma_split_one_word,
    lemma_split_word_then_rest, no_whitespace, split_whitespace, word_at,
};

verus! {

/// Reading two pieces of text one after the other is reading the second from
/// where the first ended.
pub proof fn lemma_scan_concat(at: Scan, a: Seq<char>, b: Seq<char>)
    ensures
        scan_from(at, a + b) == match scan_from(at, a) {
            Some(mid) => scan_from(mid, b),
            None => None,
        },
    decreases a.len(),
{
    if a.len() == 0 {
        assert(a + b =~= b);
    } else {
        assert((a + b)[0] == a[0]);
        assert((a + b).drop_first() =~= a.drop_first() + b);
        match scan_step(at, a[0]) {
            Some(next) => lemma_scan_concat(next, a.drop_first(), b),
            None => {},
        }
    }
}

/// Reading one character is taking one step.
proof fn lemma_scan_one(at: Scan, c: char)
    ensures
        scan_from(at, seq![c]) == scan_step(at, c),
{
    assert(seq![c].drop_first() =~= Seq::<char>::empty());
    if let Some(next) = scan_step(at, c) {
        assert(scan_from(next, Seq::<char>::empty()) == Some(next));
    }
}

/// Reading the digit of a run skips the run.
proof fn lemma_scan_run(at: Scan, run: int)
    requires
        0 <= run <= 8,
    ensures
        scan_from(at, emit_run(run)) == Some(
            Scan { squares: at.squares, file: at.file + run, rank: at.rank },
        ),
{
    if run > 0 {
        lemma_scan_one(at, digit_char(run as nat));
    }
}

/// The square lies before the given file of the given rank in reading order:
/// on a higher rank, or on that rank and a lower file.
pub open spec fn read_before(rank: int, file: int, square: int) -> bool {
    rank_of(square) > rank || (rank_of(square) == rank && file_of(square) < file)
}

/// What has been read holds the board's pieces on the squares read so far,
/// and nothing elsewhere.
pub open spec fn agrees(
    got: Squares,
    squares: Squares,
    rank: int,
    file: int,
) -> bool {
    &&& got.len() == 64
    &&& forall|i: int|
        0 <= i < 64 ==> #[trigger] got[i] == if read_before(rank, file, i) {
            squares[i]
        } else {
            None
        }
}

/// Reading the text for the rest of a rank places the rest of the rank.
proof fn lemma_scan_files(
    at: Scan,
    squares: Squares,
    rank: int,
    file: int,
    run: int,
) -> (end: Scan)
    requires
        squares.len() == 64,
        0 <= rank < 8,
        0 <= run <= file <= 8,
        at.rank == rank,
        at.file == file - run,
        agrees(at.squares, squares, rank, file),
    ensures
        scan_from(at, emit_files(squares, rank, file, run)) == Some(end),
        end.rank == rank,
        end.file == 8,
        agrees(end.squares, squares, rank, 8),
    decreases 8 - file,
{
    if file >= 8 {
        lemma_scan_run(at, run);
        Scan { squares: at.squares, file: 8, rank }
    } else {
        let square = square_at(file, rank);
        assert(file_of(square) == file && rank_of(square) == rank);
        match squares[square] {
            Some((kind, color)) => {
                let symbol = piece_symbol(kind, color);
                let rest = emit_files(squares, rank, file + 1, 0);
                let skipped = Scan { squares: at.squares, file, rank };
                let placed = Scan {
                    squares: at.squares.update(square, Some((kind, color))),
                    file: file + 1,
                    rank,
                };
                lemma_scan_run(at, run);
                lemma_symbol_round_trip(kind, color);
                lemma_scan_one(skipped, symbol);
                assert(scan_step(skipped, symbol) == Some(placed));
                lemma_scan_concat(at, emit_run(run), seq![symbol]);
                lemma_scan_concat(at, emit_run(run) + seq![symbol], rest);
                assert(agrees(placed.squares, squares, rank, file + 1));
                lemma_scan_files(placed, squares, rank, file + 1, 0)
            },
            None => {
                assert(agrees(at.squares, squares, rank, file + 1));
                lemma_scan_files(at, squares, rank, file + 1, run + 1)
            },
        }
    }
}

/// Reading the text for a rank and the ranks below it places the rest of the
/// board.
proof fn lemma_scan_ranks(at: Scan, squares: Squares, rank: int)
    requires
        squares.len() == 64,
        0 <= rank < 8,
        at.rank == rank,
        at.file == 0,
        agrees(at.squares, squares, rank, 0),
    ensures
        scan_from(at, emit_ranks(squares, rank)) matches Some(end) && end.squares == squares,
    decreases rank,
{
    let end_of_rank = lemma_scan_files(at, squares, rank, 0, 0);
    lemma_scan_concat(at, emit_files(squares, rank, 0, 0), emit_below(squares, rank));
    if rank > 0 {
        let next = Scan { squares: end_of_rank.squares, file: 0, rank: rank - 1 };
        assert(scan_step(end_of_rank, '/') == Some(next));
        lemma_scan_one(end_of_rank, '/');
        lemma_scan_concat(end_of_rank, seq!['/'], emit_ranks(squares, rank - 1));
        assert(agrees(next.squares, squares, rank - 1, 0));
        lemma_scan_ranks(next, squares, rank - 1);
    } else {
        assert(emit_files(squares, rank, 0, 0) + emit_below(squares, rank) =~= emit_files(
            squares,
            rank,
            0,
            0,
        ));
        assert(end_of_rank.squares =~= squares);
    }
}

/// Reading the placement of a board gives the board back.
pub proof fn lemma_placement_round_trip(squares: Squares)
    requires
        squares.len() == 64,
    ensures
        parse_placement(emit_placement(squares)) == Some(squares),
{
    lemma_scan_ranks(scan_start(), squares, 7);
}

/// The text for the rest of a rank holds no white space, and is not empty
/// where a square or a run is left to write.
proof fn lemma_files_text(squares: Squares, rank: int, file: int, run: int)
    requires
        0 <= run <= file <= 8,
    ensures
        no_whitespace(emit_files(squares, rank, file, run)),
        file < 8 || run > 0 ==> emit_files(squares, rank, file, run).len() > 0,
    decreases 8 - file,
{
    if file < 8 {
        lemma_files_text(squares, rank, file + 1, 0);
        lemma_files_text(squares, rank, file + 1, run + 1);
    }
}

/// The text for a rank and the ranks below it holds no white space and is
/// not empty.
proof fn lemma_ranks_text(squares: Squares, rank: int)
    requires
        0 <= rank,
    ensures
        no_whitespace(emit_ranks(squares, rank)),
        emit_ranks(squares, rank).len() > 0,
    decreases rank,
{
    lemma_files_text(squares, rank, 0, 0);
    if rank > 0 {
        lemma_ranks_text(squares, rank - 1);
    }
}

/// Six words with one space between each two are split into the six words.
proof fn lemma_six_words(
    f0: Seq<char>,
    f1: Seq<char>,
    f2: Seq<char>,
    f3: Seq<char>,
    f4: Seq<char>,
    f5: Seq<char>,
)
    requires
        no_whitespace(f0) && f0.len() > 0,
        no_whitespace(f1) && f1.len() > 0,
        no_whitespace(f2) && f2.len() > 0,
        no_whitespace(f3) && f3.len() > 0,
        no_whitespace(f4) && f4.len() > 0,
        no_whitespace(f5) && f5.len() > 0,
    ensures
        split_whitespace(spaced(f0, spaced(f1, spaced(f2, spaced(f3, spaced(f4, f5)))))) == seq![
            f0,
            f1,
            f2,
            f3,
            f4,
            f5,
        ],
{
    let t4 = spaced(f4, f5);
    let t3 = spaced(f3, t4);
    let t2 = spaced(f2, t3);
    let t1 = spaced(f1, t2);
    let t0 = spaced(f0, t1);
    let none = Seq::<char>::empty();
    assert(split_whitespace(f5) =~= seq![f5]) by {
        lemma_split_one_word(f5, none);
        assert(none + f5 =~= f5);
    }
    assert(split_whitespace(t4) =~= seq![f4, f5]) by {
        lemma_split_word_then_rest(f4, ' ', f5, none);
        assert(none + f4 =~= f4);
    }
    assert(split_whitespace(t3) =~= seq![f3, f4, f5]) by {
        lemma_split_word_then_rest(f3, ' ', t4, none);
        assert(none + f3 =~= f3);
    }
    assert(split_whitespace(t2) =~= seq![f2, f3, f4, f5]) by {
        lemma_split_word_then_rest(f2, ' ', t3, none);
        assert(none + f2 =~= f2);
    }
    assert(split_whitespace(t1) =~= seq![f1, f2, f3, f4, f5]) by {
        lemma_split_word_then_rest(f1, ' ', t2, none);
        assert(none + f1 =~= f1);
    }
    assert(split_whitespace(t0) =~= seq![f0, f1, f2, f3, f4, f5]) by {
        lemma_split_word_then_rest(f0, ' ', t1, none);
        assert(none + f0 =~= f0);
    }
}

/// A position as FEN text has exactly its six fields as words.
pub proof fn lemma_fields_of_fen(p: Position)
    requires
        p.wf(),
    ensures
        split_whitespace(emit_fen(p)) == seq![
            emit_placement(p.squares),
            emit_active_color(p.to_move),
            emit_castling(p),
            emit_en_passant(p.en_passant),
            decimal(p.half_move_clock),
            decimal(p.full_move_number),
        ],
{
    let f1 = emit_active_color(p.to_move);
    let f2 = emit_castling(p);
    let f3 = emit_en_passant(p.en_passant);
    lemma_ranks_text(p.squares, 7);
    lemma_decimal(p.half_move_clock);
    lemma_decimal(p.full_move_number);
    assert(no_whitespace(f1) && f1.len() > 0);
    assert(no_whitespace(f2) && f2.len() > 0);
    assert(no_whitespace(f3) && f3.len() > 0);
    assert(no_whitespace(decimal(p.half_move_clock)));
    assert(no_whitespace(decimal(p.full_move_number)));
    lemma_six_words(
        emit_placement(p.squares),
        f1,
        f2,
        f3,
        decimal(p.half_move_clock),
        decimal(p.full_move_number),
    );
}

/// The castling field of a position is valid and holds the letter of each
/// right exactly where the right holds.
pub proof fn lemma_castling_round_trip(p: Position)
    ensures
        valid_castling(emit_castling(p)),
        emit_castling(p).contains('K') == p.white_king_side,
        emit_castling(p).contains('Q') == p.white_queen_side,
        emit_castling(p).contains('k') == p.black_king_side,
        emit_castling(p).contains('q') == p.black_queen_side,
{
    let text = emit_castling(p);
    let a = emit_if(p.white_king_side, 'K');
    let b = emit_if(p.white_queen_side, 'Q');
    let c = emit_if(p.black_king_side, 'k');
    let d = emit_if(p.black_queen_side, 'q');
    if p.white_king_side {
        assert(text[0] == 'K');
    }
    if p.white_queen_side {
        assert(text[a.len() as int] == 'Q');
    }
    if p.black_king_side {
        assert(text[(a.len() + b.len()) as int] == 'k');
    }
    if p.black_queen_side {
        assert(text[(a.len() + b.len() + c.len()) as int] == 'q');
    }
}

/// Reading the en-passant field of a target gives the target back.
pub proof fn lemma_en_passant_round_trip(target: Option<nat>)
    requires
        target matches Some(square) ==> square < 64,
    ensures
        parse_en_passant(emit_en_passant(target)) == Some(target),
{
    match target {
        Some(square) => {
            lemma_square_name_round_trip(square);
            assert(square_name(square).len() == 2);
            assert(seq!['-'].len() == 1);
        },
        None => {},
    }
}

/// Reading the FEN text of a position gives the position back.
pub proof fn theorem_fen_round_trip(p: Position)
    requires
        p.wf(),
    ensures
        parse_fen(emit_fen(p)) == Ok::<Position, BoardErrorKind>(p),
{
    let fields = split_whitespace(emit_fen(p));
    lemma_fields_of_fen(p);
    lemma_placement_round_trip(p.squares);
    lemma_castling_round_trip(p);
    lemma_en_passant_round_trip(p.en_passant);
    lemma_decimal_round_trip(p.half_move_clock);
    lemma_decimal_round_trip(p.full_move_number);
    assert(word_at(fields, 0) == emit_placement(p.squares));
    assert(word_at(fields, 1) == emit_active_color(p.to_move));
    assert(word_at(fields, 2) == emit_castling(p));
    assert(word_at(fields, 3) == emit_en_passant(p.en_passant));
    assert(word_at(fields, 4) == decimal(p.half_move_clock));
    assert(word_at(fields, 5) == decimal(p.full_move_number));
    assert(parse_active_color(emit_active_color(p.to_move)) == Some(p.to_move)) by {
        assert(seq!['w'] != seq!['b']) by {
            assert(seq!['w'][0] == 'w');
            assert(seq!['b'][0] == 'b');
        }
    }
}

/// Reading a placement keeps the board at 64 squares.
proof fn lemma_scan_keeps_size(at: Scan, s: Seq<char>)
    requires
        at.squares.len() == 64,
        0 <= at.rank < 8,
        0 <= at.file,
    ensures
        scan_from(at, s) matches Some(end) ==> end.squares.len() == 64,
    decreases s.len(),
{
    if s.len() > 0 {
        match scan_step(at, s[0]) {
            Some(next) => lemma_scan_keeps_size(next, s.drop_first()),
            None => {},
        }
    }
}

/// A position read from FEN text is well formed.
pub proof fn lemma_parsed_is_well_formed(text: Seq<char>)
    ensures
        parse_fen(text) matches Ok(p) ==> p.wf(),
{
    let fields = split_whitespace(text);
    lemma_scan_keeps_size(scan_start(), word_at(fields, 0));
}

/// A position that was read from FEN text is read again from the text that
/// is written for it.
pub proof fn theorem_read_write_read(text: Seq<char>)
    ensures
        parse_fen(text) matches Ok(p) ==> parse_fen(emit_fen(p)) == Ok::<Position, BoardErrorKind>(
            p,
        ),
{
    lemma_parsed_is_well_formed(text);
    if let Ok(p) = parse_fen(text) {
        theorem_fen_round_trip(p);
    }
}

/// Two boards whose recorded kinds and colours agree square by square are
/// the same board where they are the same position.
pub proof fn lemma_position_determines_board(a: Board, b: Board)
    requires
        a.wf(),
        b.wf(),
        a@ == b@,
    ensures
        a == b,
{
    assert forall|i: int| 0 <= i < 64 implies a.squares[i] == b.squares[i] && a.colors[i]
        == b.colors[i] by {
        assert(a@.squares[i] == b@.squares[i]);
    }
    assert(a.squares =~= b.squares);
    assert(a.colors =~= b.colors);
}

} // verus!
