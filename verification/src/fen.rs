//! The six fields of FEN text: what each one means, and how each is read and
//! written.

use vstd::array::spec_array_fill_for_copy_type;
use vstd::prelude::*;
use crate::board::{in_step, occupants, BoardError, BoardErrorKind, Position, Squares};
use crate::piece::{piece_symbol, symbol_piece, Color, Piece};
use crate::square::{parse_square, square_at, square_index_of, square_name, square_name_of};
use crate::text::{decimal, digit_char, parse_u32, split_whitespace, word_at};

verus! {

/// Where the reading of a piece placement stands: the pieces placed so far,
/// and the file and rank of the next square.
pub struct Scan {
    pub squares: Squares,
    pub file: int,
    pub rank: int,
}

/// The board with no piece on it.
pub open spec fn empty_squares() -> Squares {
    Seq::new(64, |i: int| None)
}

/// Reading of a placement starts on a8 with an empty board.
pub open spec fn scan_start() -> Scan {
    Scan { squares: empty_squares(), file: 0, rank: 7 }
}

/// One character of a piece placement. `/` goes to the start of the rank
/// below, a digit from 1 to 8 skips that many files, and a piece letter puts
/// its piece on the current square and goes one file on. Nothing else is
/// accepted: no other character, no `/` on the first rank, and no piece past
/// the h-file.
pub open spec fn scan_step(at: Scan, c: char) -> Option<Scan> {
    if c == '/' {
        if at.rank > 0 {
            Some(Scan { squares: at.squares, file: 0, rank: at.rank - 1 })
        } else {
            None
        }
    } else if '1' <= c <= '8' {
        Some(Scan { squares: at.squares, file: at.file + (c as int - '0' as int), rank: at.rank })
    } else if symbol_piece(c) is Some && at.file < 8 {
        Some(
            Scan {
                squares: at.squares.update(square_at(at.file, at.rank), symbol_piece(c)),
                file: at.file + 1,
                rank: at.rank,
            },
        )
    } else {
        None
    }
}

/// The characters of a piece placement read one after another, as far as
/// each is accepted.
pub open spec fn scan_from(at: Scan, s: Seq<char>) -> Option<Scan>
    decreases s.len(),
{
    if s.len() == 0 {
        Some(at)
    } else {
        match scan_step(at, s[0]) {
            Some(next) => scan_from(next, s.drop_first()),
            None => None,
        }
    }
}

/// The board that a piece placement describes, if every character of it is
/// accepted.
pub open spec fn parse_placement(s: Seq<char>) -> Option<Squares> {
    match scan_from(scan_start(), s) {
        Some(end) => Some(end.squares),
        None => None,
    }
}

/// The side to move that the second field names: `w` or `b`.
pub open spec fn parse_active_color(s: Seq<char>) -> Option<Color> {
    if s == seq!['w'] {
        Some(Color::White)
    } else if s == seq!['b'] {
        Some(Color::Black)
    } else {
        None
    }
}

/// A character that may stand in the castling field.
pub open spec fn is_castling_char(c: char) -> bool {
    c == 'K' || c == 'Q' || c == 'k' || c == 'q' || c == '-'
}

/// The castling field holds no character but `K`, `Q`, `k`, `q` and `-`.
pub open spec fn valid_castling(s: Seq<char>) -> bool {
    forall|i: int| 0 <= i < s.len() ==> is_castling_char(#[trigger] s[i])
}

/// What the en-passant field denotes: no target for `-`, else the square that
/// it names. `None` where it is neither.
pub open spec fn parse_en_passant(s: Seq<char>) -> Option<Option<nat>> {
    if s == seq!['-'] {
        Some(None)
    } else {
        match parse_square(s) {
            Some(square) => Some(Some(square)),
            None => None,
        }
    }
}

/// The position that a FEN text describes, or the reason it describes none.
///
/// The text is split at white space; the first six words are the fields, and
/// a field that is missing counts as empty. The fields are judged in this
/// order: placement, side to move, castling rights, half-move clock,
/// full-move number, en-passant target.
pub open spec fn parse_fen(s: Seq<char>) -> Result<Position, BoardErrorKind> {
    let fields = split_whitespace(s);
    let placement = parse_placement(word_at(fields, 0));
    let to_move = parse_active_color(word_at(fields, 1));
    let castling = word_at(fields, 2);
    let en_passant = parse_en_passant(word_at(fields, 3));
    let half_move_clock = parse_u32(word_at(fields, 4));
    let full_move_number = parse_u32(word_at(fields, 5));
    if placement is None {
        Err(BoardErrorKind::InvalidPieceSymbol)
    } else if to_move is None {
        Err(BoardErrorKind::InvalidActiveColor)
    } else if !valid_castling(castling) {
        Err(BoardErrorKind::InvalidCastlingRights)
    } else if half_move_clock is None {
        Err(BoardErrorKind::InvalidHalfmoveClock)
    } else if full_move_number is None {
        Err(BoardErrorKind::InvalidFullmoveNumber)
    } else if en_passant is None {
        Err(BoardErrorKind::InvalidSquare)
    } else {
        Ok(
            Position {
                squares: placement->0,
                to_move: to_move->0,
                white_king_side: castling.contains('K'),
                white_queen_side: castling.contains('Q'),
                black_king_side: castling.contains('k'),
                black_queen_side: castling.contains('q'),
                en_passant: en_passant->0,
                half_move_clock: half_move_clock->0,
                full_move_number: full_move_number->0,
            },
        )
    }
}

/// The digit for a run of empty squares, or nothing for no run.
pub open spec fn emit_run(run: int) -> Seq<char> {
    if run > 0 {
        seq![digit_char(run as nat)]
    } else {
        Seq::empty()
    }
}

/// The text for the squares of a rank from `file` on, after a run of `run`
/// empty squares: each piece as its letter, each maximal run of empty squares
/// as its length.
pub open spec fn emit_files(squares: Squares, rank: int, file: int, run: int) -> Seq<char>
    decreases 8 - file,
{
    if file >= 8 {
        emit_run(run)
    } else {
        match squares[square_at(file, rank)] {
            Some((kind, color)) => emit_run(run) + seq![piece_symbol(kind, color)] + emit_files(
                squares,
                rank,
                file + 1,
                0,
            ),
            None => emit_files(squares, rank, file + 1, run + 1),
        }
    }
}

/// What follows a rank in a placement: `/` and the ranks below, if there are
/// any.
pub open spec fn emit_below(squares: Squares, rank: int) -> Seq<char>
    decreases rank, 0int,
{
    if rank > 0 {
        seq!['/'] + emit_ranks(squares, rank - 1)
    } else {
        Seq::empty()
    }
}

/// The text for a rank and all ranks below it, from the top down, with `/`
/// between them.
pub open spec fn emit_ranks(squares: Squares, rank: int) -> Seq<char>
    decreases rank, 1int,
{
    if rank >= 0 {
        emit_files(squares, rank, 0, 0) + emit_below(squares, rank)
    } else {
        Seq::empty()
    }
}

/// The piece placement of a board: its eight ranks, from the eighth down.
pub open spec fn emit_placement(squares: Squares) -> Seq<char> {
    emit_ranks(squares, 7)
}

/// The letter of the side to move.
pub open spec fn emit_active_color(color: Color) -> Seq<char> {
    match color {
        Color::White => seq!['w'],
        Color::Black => seq!['b'],
    }
}

/// The letter, if the flag is set.
pub open spec fn emit_if(flag: bool, c: char) -> Seq<char> {
    if flag {
        seq![c]
    } else {
        Seq::empty()
    }
}

/// The castling field for the four rights, White's king side and queen side,
/// then Black's: the letters of the rights that hold, in the order `KQkq`,
/// or `-` where none holds.
pub open spec fn emit_rights(
    white_king_side: bool,
    white_queen_side: bool,
    black_king_side: bool,
    black_queen_side: bool,
) -> Seq<char> {
    emit_if(white_king_side, 'K') + emit_if(white_queen_side, 'Q') + emit_if(black_king_side, 'k')
        + emit_if(black_queen_side, 'q') + emit_if(
        !(white_king_side || white_queen_side || black_king_side || black_queen_side),
        '-',
    )
}

/// The castling field of a position.
pub open spec fn emit_castling(p: Position) -> Seq<char> {
    emit_rights(p.white_king_side, p.white_queen_side, p.black_king_side, p.black_queen_side)
}

/// The en-passant field: the name of the target square, or `-`.
pub open spec fn emit_en_passant(target: Option<nat>) -> Seq<char> {
    match target {
        Some(square) => square_name(square),
        None => seq!['-'],
    }
}

/// Two pieces of text with one space between them.
pub open spec fn spaced(head: Seq<char>, tail: Seq<char>) -> Seq<char> {
    head + seq![' '] + tail
}

/// The FEN text of a position: its six fields, one space between each two.
pub open spec fn emit_fen(p: Position) -> Seq<char> {
    spaced(
        emit_placement(p.squares),
        spaced(
            emit_active_color(p.to_move),
            spaced(
                emit_castling(p),
                spaced(
                    emit_en_passant(p.en_passant),
                    spaced(decimal(p.half_move_clock), decimal(p.full_move_number)),
                ),
            ),
        ),
    )
}

/// Six fields written one after another, with a space after each but the
/// last, are the six fields spaced.
pub proof fn lemma_six_fields(
    f0: Seq<char>,
    f1: Seq<char>,
    f2: Seq<char>,
    f3: Seq<char>,
    f4: Seq<char>,
    f5: Seq<char>,
)
    ensures
        Seq::<char>::empty() + f0 + seq![' '] + f1 + seq![' '] + f2 + seq![' '] + f3 + seq![' ']
            + f4 + seq![' '] + f5 == spaced(f0, spaced(f1, spaced(f2, spaced(f3, spaced(f4, f5))))),
{
    let space = seq![' '];
    let t4 = spaced(f4, f5);
    let t3 = spaced(f3, t4);
    let t2 = spaced(f2, t3);
    let t1 = spaced(f1, t2);
    let upto0 = Seq::<char>::empty() + f0 + space;
    let upto1 = upto0 + f1 + space;
    let upto2 = upto1 + f2 + space;
    let upto3 = upto2 + f3 + space;
    assert(upto3 + f4 + space + f5 =~= upto3 + t4);
    assert(upto3 + t4 =~= upto2 + t3);
    assert(upto2 + t3 =~= upto1 + t2);
    assert(upto1 + t2 =~= upto0 + t1);
    assert(upto0 + t1 =~= spaced(f0, t1));
}

/// Reads a piece placement into the kinds and the colours of the 64 squares.
/// A character that is not accepted where it stands is rejected as
/// `InvalidPieceSymbol`.
pub fn read_placement(text: &Vec<char>) -> (r: Result<
    ([Option<Piece>; 64], [Option<Color>; 64]),
    BoardError,
>)
    ensures
        match r {
            Ok((kinds, colors)) => parse_placement(text@) == Some(occupants(kinds@, colors@))
                && in_step(kinds@, colors@),
            Err(e) => parse_placement(text@) is None && e.is_of(
                BoardErrorKind::InvalidPieceSymbol,
                Seq::empty(),
            ),
        },
{
    let no_piece: Option<Piece> = None;
    let no_color: Option<Color> = None;
    let mut kinds = [no_piece; 64];
    let mut colors = [no_color; 64];
    assert(kinds == spec_array_fill_for_copy_type::<Option<Piece>, 64>(no_piece));
    assert(colors == spec_array_fill_for_copy_type::<Option<Color>, 64>(no_color));
    let mut file: usize = 0;
    let mut rank: usize = 7;
    let mut i: usize = 0;
    let ghost mut at = scan_start();
    assert(text@.skip(0) =~= text@);
    assert(at.squares =~= occupants(kinds@, colors@));
    while i < text.len()
        invariant
            i <= text.len(),
            rank < 8,
            file <= 8,
            at.rank == rank,
            at.file >= 0,
            file == if at.file < 8 { at.file } else { 8 },
            at.squares == occupants(kinds@, colors@),
            in_step(kinds@, colors@),
            scan_from(scan_start(), text@) == scan_from(at, text@.skip(i as int)),
        decreases text.len() - i,
    {
        let c = text[i];
        proof {
            assert(text@.skip(i as int)[0] == c);
            assert(text@.skip(i as int).drop_first() =~= text@.skip(i + 1));
        }
        if c == '/' {
            if rank == 0 {
                return Err(BoardError::of_kind(BoardErrorKind::InvalidPieceSymbol));
            }
            rank -= 1;
            file = 0;
        } else if '1' <= c && c <= '8' {
            let skipped: usize = (c as u32 - '0' as u32) as usize;
            file = if file + skipped < 8 {
                file + skipped
            } else {
                8
            };
        } else {
            match Piece::from_symbol(c) {
                Ok((kind, color)) => {
                    if file >= 8 {
                        return Err(BoardError::of_kind(BoardErrorKind::InvalidPieceSymbol));
                    }
                    let square: usize = 8 * rank + file;
                    kinds[square] = Some(kind);
                    colors[square] = Some(color);
                    file += 1;
                },
                Err(e) => {
                    return Err(e);
                },
            }
        }
        proof {
            at = scan_step(at, c)->0;
            assert(at.squares =~= occupants(kinds@, colors@));
        }
        i += 1;
    }
    Ok((kinds, colors))
}

/// Reads the side to move.
pub fn read_active_color(text: &Vec<char>) -> (r: Option<Color>)
    ensures
        r == parse_active_color(text@),
{
    if text.len() == 1 && text[0] == 'w' {
        assert(text@ =~= seq!['w']);
        Some(Color::White)
    } else if text.len() == 1 && text[0] == 'b' {
        assert(text@ =~= seq!['b']);
        Some(Color::Black)
    } else {
        assert(seq!['w'].len() == 1 && seq!['w'][0] == 'w');
        assert(seq!['b'].len() == 1 && seq!['b'][0] == 'b');
        None
    }
}

/// Reads the castling field into the four rights: White's king side and queen
/// side, then Black's.
pub fn read_castling(text: &Vec<char>) -> (r: Option<(bool, bool, bool, bool)>)
    ensures
        match r {
            Some(rights) => valid_castling(text@) && rights == (
                text@.contains('K'),
                text@.contains('Q'),
                text@.contains('k'),
                text@.contains('q'),
            ),
            None => !valid_castling(text@),
        },
{
    let mut white_king_side = false;
    let mut white_queen_side = false;
    let mut black_king_side = false;
    let mut black_queen_side = false;
    let mut i: usize = 0;
    while i < text.len()
        invariant
            i <= text.len(),
            valid_castling(text@.take(i as int)),
            white_king_side == text@.take(i as int).contains('K'),
            white_queen_side == text@.take(i as int).contains('Q'),
            black_king_side == text@.take(i as int).contains('k'),
            black_queen_side == text@.take(i as int).contains('q'),
        decreases text.len() - i,
    {
        let c = text[i];
        let ghost before = text@.take(i as int);
        let ghost after = text@.take(i + 1);
        proof {
            assert(after =~= before.push(c));
            assert(after[i as int] == c);
            assert forall|x: char| after.contains(x) <==> (before.contains(x) || x == c) by {
                if before.contains(x) {
                    let j = choose|j: int| 0 <= j < before.len() && before[j] == x;
                    assert(after[j] == x);
                }
            }
        }
        if c == 'K' {
            white_king_side = true;
        } else if c == 'Q' {
            white_queen_side = true;
        } else if c == 'k' {
            black_king_side = true;
        } else if c == 'q' {
            black_queen_side = true;
        } else if c != '-' {
            assert(text@[i as int] == c);
            return None;
        }
        i += 1;
    }
    assert(text@.take(i as int) =~= text@);
    Some((white_king_side, white_queen_side, black_king_side, black_queen_side))
}

/// Reads the en-passant field. A text that is neither `-` nor the name of a
/// square is rejected as `InvalidSquare`.
pub fn read_en_passant(text: &Vec<char>) -> (r: Result<Option<usize>, BoardError>)
    ensures
        match r {
            Ok(Some(square)) => parse_en_passant(text@) == Some(Some(square as nat)) && square < 64,
            Ok(None) => parse_en_passant(text@) == Some(None::<nat>),
            Err(e) => parse_en_passant(text@) is None && e.is_of(
                BoardErrorKind::InvalidSquare,
                text@,
            ),
        },
{
    if text.len() == 1 && text[0] == '-' {
        assert(text@ =~= seq!['-']);
        return Ok(None);
    }
    assert(text@ != seq!['-']) by {
        assert(seq!['-'].len() == 1 && seq!['-'][0] == '-');
    }
    match square_index_of(text) {
        Some(square) => Ok(Some(square)),
        None => Err(BoardError::invalid_square(text)),
    }
}

/// Appends the digit for a run of empty squares, if there is a run.
fn push_run(out: &mut Vec<char>, run: u8)
    requires
        run <= 8,
    ensures
        final(out)@ == old(out)@ + emit_run(run as int),
{
    if run > 0 {
        out.push((48u8 + run) as char);
    }
    assert(out@ =~= old(out)@ + emit_run(run as int));
}

/// Appends the piece placement of a board.
pub fn push_placement(
    out: &mut Vec<char>,
    kinds: &[Option<Piece>; 64],
    colors: &[Option<Color>; 64],
)
    ensures
        final(out)@ == old(out)@ + emit_placement(occupants(kinds@, colors@)),
{
    let ghost squares = occupants(kinds@, colors@);
    let ghost whole = old(out)@ + emit_placement(squares);
    let mut below: usize = 8;
    while below > 0
        invariant
            below <= 8,
            squares == occupants(kinds@, colors@),
            whole == out@ + emit_ranks(squares, below - 1),
        decreases below,
    {
        let rank: usize = below - 1;
        let mut run: u8 = 0;
        let mut file: usize = 0;
        while file < 8
            invariant
                rank < 8,
                file <= 8,
                run <= file,
                squares == occupants(kinds@, colors@),
                whole == out@ + emit_files(squares, rank as int, file as int, run as int)
                    + emit_below(squares, rank as int),
            decreases 8 - file,
        {
            let square: usize = 8 * rank + file;
            let ghost before = out@;
            let ghost rest = emit_files(squares, rank as int, file + 1, 0) + emit_below(
                squares,
                rank as int,
            );
            match (kinds[square], colors[square]) {
                (Some(kind), Some(color)) => {
                    push_run(out, run);
                    out.push(kind.to_symbol(color));
                    assert(out@ + rest =~= before + (emit_run(run as int) + seq![
                        piece_symbol(kind, color),
                    ] + emit_files(squares, rank as int, file + 1, 0)) + emit_below(
                        squares,
                        rank as int,
                    ));
                    run = 0;
                },
                _ => {
                    run += 1;
                },
            }
            file += 1;
        }
        let ghost before = out@;
        push_run(out, run);
        if rank > 0 {
            out.push('/');
        }
        assert(out@ + emit_ranks(squares, rank - 1) =~= before + emit_run(run as int) + emit_below(
            squares,
            rank as int,
        ));
        below -= 1;
    }
    assert(out@ + emit_ranks(squares, -1) =~= out@);
}

/// Appends one space.
pub fn push_space(out: &mut Vec<char>)
    ensures
        final(out)@ == old(out)@ + seq![' '],
{
    out.push(' ');
    assert(out@ =~= old(out)@ + seq![' ']);
}

/// Appends the letter of the side to move.
pub fn push_active_color(out: &mut Vec<char>, color: Color)
    ensures
        final(out)@ == old(out)@ + emit_active_color(color),
{
    match color {
        Color::White => out.push('w'),
        Color::Black => out.push('b'),
    }
    assert(out@ =~= old(out)@ + emit_active_color(color));
}

/// Appends the castling field of a position with the given rights: White's
/// king side and queen side, then Black's.
pub fn push_castling(
    out: &mut Vec<char>,
    white_king_side: bool,
    white_queen_side: bool,
    black_king_side: bool,
    black_queen_side: bool,
)
    ensures
        final(out)@ == old(out)@ + emit_rights(
            white_king_side,
            white_queen_side,
            black_king_side,
            black_queen_side,
        ),
{
    if white_king_side {
        out.push('K');
    }
    if white_queen_side {
        out.push('Q');
    }
    if black_king_side {
        out.push('k');
    }
    if black_queen_side {
        out.push('q');
    }
    if !(white_king_side || white_queen_side || black_king_side || black_queen_side) {
        out.push('-');
    }
    assert(out@ =~= old(out)@ + emit_rights(
        white_king_side,
        white_queen_side,
        black_king_side,
        black_queen_side,
    ));
}

/// Appends the en-passant field.
pub fn push_en_passant(out: &mut Vec<char>, target: Option<usize>)
    requires
        target matches Some(square) ==> square < 64,
    ensures
        final(out)@ == old(out)@ + emit_en_passant(
            match target {
                Some(square) => Some(square as nat),
                None => None,
            },
        ),
{
    match target {
        Some(square) => {
            let mut name = square_name_of(square);
            out.append(&mut name);
        },
        None => {
            out.push('-');
            assert(out@ =~= old(out)@ + seq!['-']);
        },
    }
}

} // verus!
