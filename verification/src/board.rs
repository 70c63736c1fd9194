//! The position: what stands on each square, whose move it is, the castling
//! rights, the en-passant target and the two clocks.

use vstd::array::spec_array_fill_for_copy_type;
use vstd::prelude::*;
use crate::fen::{
    emit_active_color, emit_castling, emit_en_passant, emit_fen, emit_placement, lemma_six_fields,
    parse_en_passant, parse_fen, push_active_color, push_castling, push_en_passant,
    push_placement, push_space, read_active_color, read_castling, read_en_passant,
    read_placement,
};
use crate::move_generation::Move;
use crate::piece::{piece_symbol, Color, Piece};
use crate::square::{file_of, rank_of, square_at};
use crate::text::{
    chars_of, decimal, parse_decimal, push_decimal, split_whitespace, split_words, string_of, views,
    word_at,
};

verus! {

/// The reason a piece of text was rejected.
#[derive(Debug, Clone, Copy, PartialEq, Eq, Structural)]
pub enum BoardErrorKind {
    InvalidPieceSymbol,
    InvalidActiveColor,
    InvalidCastlingRights,
    InvalidHalfmoveClock,
    InvalidFullmoveNumber,
    InvalidSquare,
}

/// A rejected input: the reason, and a message for a human reader.
#[derive(Debug, Clone)]
pub struct BoardError {
    pub kind: BoardErrorKind,
    pub message: String,
}

/// The message of each kind of error. That of `InvalidSquare` ends with the
/// text that was not a square.
pub open spec fn error_message(kind: BoardErrorKind, text: Seq<char>) -> Seq<char> {
    match kind {
        BoardErrorKind::InvalidPieceSymbol => "invalid piece symbol in FEN"@,
        BoardErrorKind::InvalidActiveColor =>
            "failed to parse active board color, must be 'b' or 'w'."@,
        BoardErrorKind::InvalidCastlingRights =>
            "invalid castling rights in fen, must be a combination of 'K', 'Q', 'k', and 'q' or '-'"@,
        BoardErrorKind::InvalidHalfmoveClock => "failed to parse half move clock from fen"@,
        BoardErrorKind::InvalidFullmoveNumber => "failed to parse full move number from fen"@,
        BoardErrorKind::InvalidSquare => "Invalid square string: "@ + text,
    }
}

impl BoardError {
    /// This error is of the given kind and carries that kind's message, for
    /// the given rejected text.
    pub open spec fn is_of(&self, kind: BoardErrorKind, text: Seq<char>) -> bool {
        &&& self.kind == kind
        &&& self.message@ == error_message(kind, text)
    }

    /// The error of the given kind, with that kind's message and no
    /// rejected text.
    pub fn of_kind(kind: BoardErrorKind) -> (e: BoardError)
        ensures
            e.is_of(kind, Seq::empty()),
    {
        let message = match kind {
            BoardErrorKind::InvalidPieceSymbol => "invalid piece symbol in FEN",
            BoardErrorKind::InvalidActiveColor =>
                "failed to parse active board color, must be 'b' or 'w'.",
            BoardErrorKind::InvalidCastlingRights =>
                "invalid castling rights in fen, must be a combination of 'K', 'Q', 'k', and 'q' or '-'",
            BoardErrorKind::InvalidHalfmoveClock => "failed to parse half move clock from fen",
            BoardErrorKind::InvalidFullmoveNumber => "failed to parse full move number from fen",
            BoardErrorKind::InvalidSquare => "Invalid square string: ",
        };
        BoardError::new(kind, message)
    }

    /// The error for a text that names no square.
    pub fn invalid_square(text: &Vec<char>) -> (e: BoardError)
        ensures
            e.is_of(BoardErrorKind::InvalidSquare, text@),
    {
        let mut message = "Invalid square string: ".to_owned();
        crate::text::append_chars(&mut message, text);
        BoardError { kind: BoardErrorKind::InvalidSquare, message }
    }

    /// An error of the given kind with the given message.
    pub fn new(kind: BoardErrorKind, message: &str) -> (e: BoardError)
        ensures
            e.kind == kind,
            e.message@ == message@,
    {
        BoardError { kind, message: message.to_owned() }
    }

    /// The message, as an owned string.
    pub fn to_string(&self) -> (s: String)
        ensures
            s@ == self.message@,
    {
        self.message.clone()
    }
}

/// What a position is, as plain mathematics: one optional piece per square,
/// square `8 * rank + file`, and the rest of the state.
pub struct Position {
    pub squares: Squares,
    pub to_move: Color,
    pub white_king_side: bool,
    pub white_queen_side: bool,
    pub black_king_side: bool,
    pub black_queen_side: bool,
    pub en_passant: Option<nat>,
    pub half_move_clock: nat,
    pub full_move_number: nat,
}

/// What stands on each of the 64 squares: square `8 * rank + file` holds a
/// piece or nothing.
pub type Squares = Seq<Option<(Piece, Color)>>;

/// The piece that a kind and a colour recorded for one square amount to:
/// a piece only where both are present.
pub open spec fn occupant(kind: Option<Piece>, color: Option<Color>) -> Option<(Piece, Color)> {
    match (kind, color) {
        (Some(p), Some(c)) => Some((p, c)),
        _ => None,
    }
}

/// The character that shows a square in a diagram: the letter of the piece
/// on it, or a space.
pub open spec fn square_char(square: Option<(Piece, Color)>) -> char {
    match square {
        Some((kind, color)) => piece_symbol(kind, color),
        None => ' ',
    }
}

/// The pieces that the kinds and the colours recorded for the 64 squares
/// amount to.
pub open spec fn occupants(kinds: Seq<Option<Piece>>, colors: Seq<Option<Color>>) -> Squares {
    Seq::new(64, |i: int| occupant(kinds[i], colors[i]))
}

/// On each of the 64 squares a kind is recorded exactly where a colour is.
pub open spec fn in_step(kinds: Seq<Option<Piece>>, colors: Seq<Option<Color>>) -> bool {
    forall|i: int| 0 <= i < 64 ==> (#[trigger] kinds[i] is Some <==> colors[i] is Some)
}

/// A position. Square `8 * rank + file` has its kind of piece in `squares` and
/// its colour in `colors`; an empty square has neither.
#[derive(Debug, PartialEq, Eq)]
pub struct Board {
    pub squares: [Option<Piece>; 64],
    pub colors: [Option<Color>; 64],
    pub to_move: Color,
    pub can_white_king_side_castle: bool,
    pub can_black_king_side_castle: bool,
    pub can_white_queen_side_castle: bool,
    pub can_black_queen_side_castle: bool,
    pub en_passant_square: Option<usize>,
    pub half_move_clock: u32,
    pub full_move_number: u32,
}

impl View for Board {
    type V = Position;

    open spec fn view(&self) -> Position {
        Position {
            squares: occupants(self.squares@, self.colors@),
            to_move: self.to_move,
            white_king_side: self.can_white_king_side_castle,
            white_queen_side: self.can_white_queen_side_castle,
            black_king_side: self.can_black_king_side_castle,
            black_queen_side: self.can_black_queen_side_castle,
            en_passant: match self.en_passant_square {
                Some(sq) => Some(sq as nat),
                None => None,
            },
            half_move_clock: self.half_move_clock as nat,
            full_move_number: self.full_move_number as nat,
        }
    }
}

/// The word at position `k`, or an empty one where there are fewer words.
fn word_or_empty(words: &Vec<Vec<char>>, k: usize) -> (word: Vec<char>)
    ensures
        word@ == word_at(views(words@), k as int),
{
    if k < words.len() {
        words[k].clone()
    } else {
        Vec::new()
    }
}

impl Board {
    /// The kind and the colour recorded for each square agree, and an
    /// en-passant target is a square of the board.
    pub open spec fn wf(&self) -> bool {
        &&& in_step(self.squares@, self.colors@)
        &&& self.en_passant_square matches Some(sq) ==> sq < 64
    }

    /// The position at the start of a game.
    pub fn starting_position() -> (board: Board)
        ensures
            board.wf(),
            board@ == Position::starting(),
    {
        let back_rank: [Piece; 8] = [
            Piece::Rook,
            Piece::Knight,
            Piece::Bishop,
            Piece::Queen,
            Piece::King,
            Piece::Bishop,
            Piece::Knight,
            Piece::Rook,
        ];
        let mut board = Board::default();
        board.can_white_king_side_castle = true;
        board.can_white_queen_side_castle = true;
        board.can_black_king_side_castle = true;
        board.can_black_queen_side_castle = true;
        let mut file: usize = 0;
        while file < 8
            invariant
                file <= 8,
                board.wf(),
                forall|f: int| 0 <= f < 8 ==> #[trigger] back_rank[f] == back_rank_piece(f),
                forall|i: int|
                    0 <= i < 64 ==> #[trigger] board@.squares[i] == if file_of(i) < file {
                        starting_piece(i)
                    } else {
                        None
                    },
                board@ == (Position { squares: board@.squares, ..Position::starting() }),
            decreases 8 - file,
        {
            board.put_piece(file, back_rank[file], Color::White);
            board.put_piece(8 + file, Piece::Pawn, Color::White);
            board.put_piece(48 + file, Piece::Pawn, Color::Black);
            board.put_piece(56 + file, back_rank[file], Color::Black);
            file += 1;
        }
        assert(board@.squares =~= Position::starting().squares);
        board
    }

    /// The position that a FEN text describes. A text that describes none is
    /// rejected with the kind of error that `parse_fen` gives for it and that
    /// kind's message; for `InvalidSquare` the message quotes the en-passant
    /// field.
    pub fn from_fen(fen: &str) -> (r: Result<Board, BoardError>)
        ensures
            match r {
                Ok(board) => board.wf() && parse_fen(fen@) == Ok::<Position, BoardErrorKind>(
                    board@,
                ),
                Err(e) => parse_fen(fen@) == Err::<Position, BoardErrorKind>(e.kind) && e.is_of(
                    e.kind,
                    word_at(split_whitespace(fen@), 3),
                ),
            },
    {
        let text = chars_of(fen);
        let fields = split_words(&text);

        let placement = word_or_empty(&fields, 0);
        let (squares, colors) = match read_placement(&placement) {
            Ok(arrays) => arrays,
            Err(e) => {
                return Err(e);
            },
        };

        let active_color = word_or_empty(&fields, 1);
        let to_move = match read_active_color(&active_color) {
            Some(color) => color,
            None => {
                return Err(BoardError::of_kind(BoardErrorKind::InvalidActiveColor));
            },
        };

        let castling = word_or_empty(&fields, 2);
        let (white_king_side, white_queen_side, black_king_side, black_queen_side) =
            match read_castling(&castling) {
            Some(rights) => rights,
            None => {
                return Err(BoardError::of_kind(BoardErrorKind::InvalidCastlingRights));
            },
        };

        let half_move_field = word_or_empty(&fields, 4);
        let half_move_clock = match parse_decimal(&half_move_field) {
            Some(n) => n,
            None => {
                return Err(BoardError::of_kind(BoardErrorKind::InvalidHalfmoveClock));
            },
        };

        let full_move_field = word_or_empty(&fields, 5);
        let full_move_number = match parse_decimal(&full_move_field) {
            Some(n) => n,
            None => {
                return Err(BoardError::of_kind(BoardErrorKind::InvalidFullmoveNumber));
            },
        };

        let en_passant_field = word_or_empty(&fields, 3);
        let en_passant_square = match read_en_passant(&en_passant_field) {
            Ok(target) => target,
            Err(e) => {
                return Err(e);
            },
        };

        Ok(
            Board {
                squares,
                colors,
                to_move,
                en_passant_square,
                can_white_king_side_castle: white_king_side,
                can_black_king_side_castle: black_king_side,
                can_white_queen_side_castle: white_queen_side,
                can_black_queen_side_castle: black_queen_side,
                half_move_clock,
                full_move_number,
            },
        )
    }

    /// The FEN text of this position.
    pub fn to_fen(&self) -> (fen: String)
        requires
            self.en_passant_square matches Some(square) ==> square < 64,
        ensures
            fen@ == emit_fen(self@),
    {
        let ghost p = self@;
        let mut out: Vec<char> = Vec::new();
        push_placement(&mut out, &self.squares, &self.colors);
        push_space(&mut out);
        push_active_color(&mut out, self.to_move);
        push_space(&mut out);
        push_castling(
            &mut out,
            self.can_white_king_side_castle,
            self.can_white_queen_side_castle,
            self.can_black_king_side_castle,
            self.can_black_queen_side_castle,
        );
        push_space(&mut out);
        push_en_passant(&mut out, self.en_passant_square);
        push_space(&mut out);
        push_decimal(&mut out, self.half_move_clock);
        push_space(&mut out);
        push_decimal(&mut out, self.full_move_number);
        proof {
            lemma_six_fields(
                emit_placement(p.squares),
                emit_active_color(p.to_move),
                emit_castling(p),
                emit_en_passant(p.en_passant),
                decimal(p.half_move_clock),
                decimal(p.full_move_number),
            );
        }
        string_of(&out)
    }

    /// What the en-passant field of a FEN text denotes: no target for `-`,
    /// else the index of the square that it names. Any other text is
    /// rejected as `InvalidSquare`, with a message that quotes it.
    pub fn parse_en_passant_square(en_passant_square_field: &str) -> (r: Result<
        Option<usize>,
        BoardError,
    >)
        ensures
            match r {
                Ok(Some(square)) => parse_en_passant(en_passant_square_field@) == Some(
                    Some(square as nat),
                ) && square < 64,
                Ok(None) => parse_en_passant(en_passant_square_field@) == Some(None::<nat>),
                Err(e) => parse_en_passant(en_passant_square_field@) is None && e.is_of(
                    BoardErrorKind::InvalidSquare,
                    en_passant_square_field@,
                ),
            },
    {
        let text = chars_of(en_passant_square_field);
        read_en_passant(&text)
    }

    /// The board as eight rows of eight characters, the eighth rank first and
    /// the a-file first in each: the letter of the piece on each square, or
    /// a space.
    pub fn diagram(&self) -> (rows: Vec<Vec<char>>)
        ensures
            rows.len() == 8,
            forall|row: int, file: int|
                0 <= row < 8 && 0 <= file < 8 ==> (#[trigger] rows[row][file]) == square_char(
                    self@.squares[square_at(file, 7 - row)],
                ),
            forall|row: int| 0 <= row < 8 ==> (#[trigger] rows[row]).len() == 8,
    {
        let mut rows: Vec<Vec<char>> = Vec::new();
        let mut below: usize = 8;
        while below > 0
            invariant
                below <= 8,
                rows.len() == 8 - below,
                forall|row: int| 0 <= row < rows.len() ==> (#[trigger] rows[row]).len() == 8,
                forall|row: int, file: int|
                    0 <= row < rows.len() && 0 <= file < 8 ==> (#[trigger] rows[row][file])
                        == square_char(self@.squares[square_at(file, 7 - row)]),
            decreases below,
        {
            let rank: usize = below - 1;
            let mut row: Vec<char> = Vec::new();
            let mut file: usize = 0;
            while file < 8
                invariant
                    rank < 8,
                    file <= 8,
                    row.len() == file,
                    forall|f: int|
                        0 <= f < file ==> (#[trigger] row[f]) == square_char(
                            self@.squares[square_at(f, rank as int)],
                        ),
                decreases 8 - file,
            {
                let character = match self.piece_at(8 * rank + file) {
                    Some((kind, color)) => kind.to_symbol(color),
                    None => ' ',
                };
                row.push(character);
                file += 1;
            }
            rows.push(row);
            below -= 1;
        }
        rows
    }

    /// Moves whatever stands on the move's starting square to its target
    /// square, where it replaces what stood there, and passes the move to the
    /// other side. Castling rights, en-passant target and clocks stay as they
    /// are.
    pub fn move_piece(&mut self, mv: Move)
        requires
            mv.starting_square < 64,
            mv.target_square < 64,
            old(self)@.squares[mv.starting_square as int] is Some,
        ensures
            final(self)@ == old(self)@.after_move(mv),
            old(self).wf() ==> final(self).wf(),
    {
        let starting_piece = self.squares[mv.starting_square];
        let starting_piece_color = self.colors[mv.starting_square];
        self.squares[mv.target_square] = starting_piece;
        self.colors[mv.target_square] = starting_piece_color;
        self.squares[mv.starting_square] = None;
        self.colors[mv.starting_square] = None;
        self.to_move = self.to_move.opposite();
        assert(self@.squares =~= old(self)@.after_move(mv).squares);
    }

    /// Puts a piece on a square, in place of what stood there.
    pub fn put_piece(&mut self, square: usize, piece: Piece, color: Color)
        requires
            square < 64,
        ensures
            final(self)@ == (Position {
                squares: old(self)@.squares.update(square as int, Some((piece, color))),
                ..old(self)@
            }),
            old(self).wf() ==> final(self).wf(),
    {
        self.squares[square] = Some(piece);
        self.colors[square] = Some(color);
        assert(self@.squares =~= old(self)@.squares.update(square as int, Some((piece, color))));
    }

    /// The piece on a square, if there is one.
    pub fn piece_at(&self, index: usize) -> (piece: Option<(Piece, Color)>)
        requires
            index < 64,
        ensures
            piece == self@.squares[index as int],
    {
        match (self.squares[index], self.colors[index]) {
            (Some(kind), Some(color)) => Some((kind, color)),
            _ => None,
        }
    }

    /// Whether the given piece stands on the square.
    pub fn is_piece_at_square(&self, index: usize, piece: Piece, color: Color) -> (found: bool)
        requires
            index < 64,
        ensures
            found == (self@.squares[index as int] == Some((piece, color))),
    {
        match (self.squares[index], self.colors[index]) {
            (Some(s), Some(c)) => s == piece && c == color,
            _ => false,
        }
    }

    /// Whether neither a kind nor a colour is recorded for the square.
    pub fn is_square_empty(&self, index: usize) -> (empty: bool)
        requires
            index < 64,
        ensures
            empty == (self.squares[index as int] is None && self.colors[index as int] is None),
            self.wf() ==> empty == (self@.squares[index as int] is None),
    {
        self.squares[index].is_none() && self.colors[index].is_none()
    }
}

impl Default for Board {
    /// The empty board: White to move, no castling rights, no en-passant
    /// target, clocks at 0 and 1.
    fn default() -> (b: Board)
        ensures
            b.wf(),
            b@ == Position::empty(),
    {
        let no_piece: Option<Piece> = None;
        let no_color: Option<Color> = None;
        let squares = [no_piece; 64];
        let colors = [no_color; 64];
        assert(squares == spec_array_fill_for_copy_type::<Option<Piece>, 64>(no_piece));
        assert(colors == spec_array_fill_for_copy_type::<Option<Color>, 64>(no_color));
        let b = Board {
            squares,
            colors,
            to_move: Color::White,
            can_white_king_side_castle: false,
            can_white_queen_side_castle: false,
            can_black_king_side_castle: false,
            can_black_queen_side_castle: false,
            en_passant_square: None,
            half_move_clock: 0,
            full_move_number: 1,
        };
        proof {
            assert(b@.squares =~= Position::empty().squares);
        }
        b
    }
}

/// The piece on each file of a back rank at the start of a game.
pub open spec fn back_rank_piece(file: int) -> Piece {
    if file == 0 || file == 7 {
        Piece::Rook
    } else if file == 1 || file == 6 {
        Piece::Knight
    } else if file == 2 || file == 5 {
        Piece::Bishop
    } else if file == 3 {
        Piece::Queen
    } else {
        Piece::King
    }
}

/// The piece on each square at the start of a game: White's pieces on the
/// first rank and pawns on the second, Black's pawns on the seventh and
/// pieces on the eighth.
pub open spec fn starting_piece(square: int) -> Option<(Piece, Color)> {
    if rank_of(square) == 0 {
        Some((back_rank_piece(file_of(square)), Color::White))
    } else if rank_of(square) == 1 {
        Some((Piece::Pawn, Color::White))
    } else if rank_of(square) == 6 {
        Some((Piece::Pawn, Color::Black))
    } else if rank_of(square) == 7 {
        Some((back_rank_piece(file_of(square)), Color::Black))
    } else {
        None
    }
}

impl Position {
    /// The position at the start of a game: every piece on its square, White
    /// to move, all castling rights, no en-passant target, clocks at 0 and 1.
    pub open spec fn starting() -> Position {
        Position {
            squares: Seq::new(64, |i: int| starting_piece(i)),
            to_move: Color::White,
            white_king_side: true,
            white_queen_side: true,
            black_king_side: true,
            black_queen_side: true,
            en_passant: None,
            half_move_clock: 0,
            full_move_number: 1,
        }
    }

    /// The board has 64 squares, an en-passant target is one of them, and the
    /// clocks fit in 32 bits.
    pub open spec fn wf(self) -> bool {
        &&& self.squares.len() == 64
        &&& self.en_passant matches Some(square) ==> square < 64
        &&& self.half_move_clock <= u32::MAX
        &&& self.full_move_number <= u32::MAX
    }

    /// The position after a move: the piece of the starting square stands on
    /// the target square, the starting square is empty, and the other side is
    /// to move.
    pub open spec fn after_move(self, mv: Move) -> Position {
        Position {
            squares: self.squares.update(
                mv.target_square as int,
                self.squares[mv.starting_square as int],
            ).update(mv.starting_square as int, None),
            to_move: self.to_move.opposite(),
            ..self
        }
    }

    /// The position with no piece on the board, White to move, no castling
    /// rights, no en-passant target, clocks at 0 and 1.
    pub open spec fn empty() -> Position {
        Position {
            squares: Seq::new(64, |i: int| None),
            to_move: Color::White,
            white_king_side: false,
            white_queen_side: false,
            black_king_side: false,
            black_queen_side: false,
            en_passant: None,
            half_move_clock: 0,
            full_move_number: 1,
        }
    }
}

} // verus!
