//! The two colours, the six kinds of piece, and the letters that stand for
//! them in FEN text.

use vstd::prelude::*;
use crate::board::{BoardError, BoardErrorKind};

verus! {

/// The side a piece belongs to, and the side to move.
#[derive(Debug, Clone, Copy, PartialEq, Eq, Structural)]
pub enum Color {
    White,
    Black,
}

/// The kind of a piece.
#[derive(Debug, Clone, Copy, PartialEq, Eq, Structural)]
pub enum Piece {
    Pawn,
    Knight,
    Bishop,
    Rook,
    Queen,
    King,
}

/// The FEN letter of a piece: upper case for White, lower case for Black.
pub open spec fn piece_symbol(kind: Piece, color: Color) -> char {
    match (color, kind) {
        (Color::White, Piece::Pawn) => 'P',
        (Color::White, Piece::Knight) => 'N',
        (Color::White, Piece::Bishop) => 'B',
        (Color::White, Piece::Rook) => 'R',
        (Color::White, Piece::Queen) => 'Q',
        (Color::White, Piece::King) => 'K',
        (Color::Black, Piece::Pawn) => 'p',
        (Color::Black, Piece::Knight) => 'n',
        (Color::Black, Piece::Bishop) => 'b',
        (Color::Black, Piece::Rook) => 'r',
        (Color::Black, Piece::Queen) => 'q',
        (Color::Black, Piece::King) => 'k',
    }
}

/// Whether a character is one of the twelve FEN letters.
pub open spec fn is_piece_symbol(symbol: char) -> bool {
    exists|kind: Piece, color: Color| piece_symbol(kind, color) == symbol
}

/// The piece that a FEN letter stands for, if it is one of the twelve.
pub open spec fn symbol_piece(symbol: char) -> Option<(Piece, Color)> {
    if is_piece_symbol(symbol) {
        Some(choose|pc: (Piece, Color)| piece_symbol(pc.0, pc.1) == symbol)
    } else {
        None
    }
}

/// Each letter stands for one piece only, so reading a piece's letter gives
/// the piece back.
pub proof fn lemma_symbol_round_trip(kind: Piece, color: Color)
    ensures
        symbol_piece(piece_symbol(kind, color)) == Some((kind, color)),
{
    let symbol = piece_symbol(kind, color);
    let pc = choose|pc: (Piece, Color)| piece_symbol(pc.0, pc.1) == symbol;
    assert(piece_symbol((kind, color).0, (kind, color).1) == symbol);
    assert(pc.0 == kind && pc.1 == color);
}

impl Color {
    /// The other colour.
    pub open spec fn spec_opposite(self) -> Color {
        match self {
            Color::White => Color::Black,
            Color::Black => Color::White,
        }
    }

    /// The other colour.
    #[verifier::when_used_as_spec(spec_opposite)]
    pub fn opposite(self) -> (other: Color)
        ensures
            other == self.spec_opposite(),
    {
        match self {
            Color::White => Color::Black,
            Color::Black => Color::White,
        }
    }
}

impl Piece {
    /// The FEN letter of this kind of piece in the given colour.
    pub fn to_symbol(self, color: Color) -> (symbol: char)
        ensures
            symbol == piece_symbol(self, color),
    {
        match color {
            Color::White => match self {
                Piece::Pawn => 'P',
                Piece::Knight => 'N',
                Piece::Bishop => 'B',
                Piece::Rook => 'R',
                Piece::Queen => 'Q',
                Piece::King => 'K',
            },
            Color::Black => match self {
                Piece::Pawn => 'p',
                Piece::Knight => 'n',
                Piece::Bishop => 'b',
                Piece::Rook => 'r',
                Piece::Queen => 'q',
                Piece::King => 'k',
            },
        }
    }

    /// The piece that a FEN letter stands for. Any character but the twelve
    /// letters is rejected as `InvalidPieceSymbol`.
    pub fn from_symbol(symbol: char) -> (r: Result<(Piece, Color), BoardError>)
        ensures
            match r {
                Ok(pc) => symbol_piece(symbol) == Some(pc),
                Err(e) => symbol_piece(symbol) is None && e.is_of(
                    BoardErrorKind::InvalidPieceSymbol,
                    Seq::empty(),
                ),
            },
    {
        let found = match symbol {
            'P' => Some((Piece::Pawn, Color::White)),
            'p' => Some((Piece::Pawn, Color::Black)),
            'N' => Some((Piece::Knight, Color::White)),
            'n' => Some((Piece::Knight, Color::Black)),
            'B' => Some((Piece::Bishop, Color::White)),
            'b' => Some((Piece::Bishop, Color::Black)),
            'R' => Some((Piece::Rook, Color::White)),
            'r' => Some((Piece::Rook, Color::Black)),
            'Q' => Some((Piece::Queen, Color::White)),
            'q' => Some((Piece::Queen, Color::Black)),
            'K' => Some((Piece::King, Color::White)),
            'k' => Some((Piece::King, Color::Black)),
            _ => None,
        };
        match found {
            Some(pc) => {
                proof {
                    lemma_symbol_round_trip(pc.0, pc.1);
                }
                Ok(pc)
            },
            None => {
                assert forall|kind: Piece, color: Color| piece_symbol(kind, color) != symbol by {}
                Err(BoardError::of_kind(BoardErrorKind::InvalidPieceSymbol))
            },
        }
    }
}

} // verus!
