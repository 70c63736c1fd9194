//! The squares of the board, by name and by index, and their algebraic
//! notation.

use vstd::prelude::*;
use crate::board::{BoardError, BoardErrorKind};
use crate::text::{chars_of, string_of};

verus! {

/// The square on a file and a rank, both counted from 0: files a to h, ranks
/// 1 to 8.
pub open spec fn square_at(file: int, rank: int) -> int {
    8 * rank + file
}

/// The file of a square, 0 for the a-file.
pub open spec fn file_of(square: int) -> int {
    square % 8
}

/// The rank of a square, 0 for the first rank.
pub open spec fn rank_of(square: int) -> int {
    square / 8
}

/// The square that a text names: a file letter from a to h, then a rank digit
/// from 1 to 8, and nothing else.
pub open spec fn parse_square(text: Seq<char>) -> Option<nat> {
    if text.len() == 2 && 'a' <= text[0] <= 'h' && '1' <= text[1] <= '8' {
        Some(square_at(text[0] as int - 'a' as int, text[1] as int - '1' as int) as nat)
    } else {
        None
    }
}

/// The name of a square: its file letter, then its rank digit.
pub open spec fn square_name(square: nat) -> Seq<char> {
    seq![
        (('a' as int + file_of(square as int)) as u8) as char,
        (('1' as int + rank_of(square as int)) as u8) as char,
    ]
}

/// Reading a square's name gives the square back.
pub proof fn lemma_square_name_round_trip(square: nat)
    requires
        square < 64,
    ensures
        parse_square(square_name(square)) == Some(square),
{
}

/// A name that reads as a square is the name of that square.
pub proof fn lemma_parse_square_name(text: Seq<char>)
    requires
        parse_square(text) is Some,
    ensures
        parse_square(text)->0 < 64,
        square_name(parse_square(text)->0) == text,
{
    assert(square_name(parse_square(text)->0) =~= text);
}

/// A square of the board, named by file and rank. The squares are in index
/// order: `A1` is 0, `H1` is 7, `A2` is 8, `H8` is 63.
#[derive(Debug, Clone, Copy, PartialEq, Eq, Structural)]
pub enum Square {
    A1,
    B1,
    C1,
    D1,
    E1,
    F1,
    G1,
    H1,
    A2,
    B2,
    C2,
    D2,
    E2,
    F2,
    G2,
    H2,
    A3,
    B3,
    C3,
    D3,
    E3,
    F3,
    G3,
    H3,
    A4,
    B4,
    C4,
    D4,
    E4,
    F4,
    G4,
    H4,
    A5,
    B5,
    C5,
    D5,
    E5,
    F5,
    G5,
    H5,
    A6,
    B6,
    C6,
    D6,
    E6,
    F6,
    G6,
    H6,
    A7,
    B7,
    C7,
    D7,
    E7,
    F7,
    G7,
    H7,
    A8,
    B8,
    C8,
    D8,
    E8,
    F8,
    G8,
    H8,
}

impl Square {
    /// The index of this square, `8 * rank + file`.
    pub open spec fn index(self) -> nat {
        match self {
            Square::A1 => 0,
            Square::B1 => 1,
            Square::C1 => 2,
            Square::D1 => 3,
            Square::E1 => 4,
            Square::F1 => 5,
            Square::G1 => 6,
            Square::H1 => 7,
            Square::A2 => 8,
            Square::B2 => 9,
            Square::C2 => 10,
            Square::D2 => 11,
            Square::E2 => 12,
            Square::F2 => 13,
            Square::G2 => 14,
            Square::H2 => 15,
            Square::A3 => 16,
            Square::B3 => 17,
            Square::C3 => 18,
            Square::D3 => 19,
            Square::E3 => 20,
            Square::F3 => 21,
            Square::G3 => 22,
            Square::H3 => 23,
            Square::A4 => 24,
            Square::B4 => 25,
            Square::C4 => 26,
            Square::D4 => 27,
            Square::E4 => 28,
            Square::F4 => 29,
            Square::G4 => 30,
            Square::H4 => 31,
            Square::A5 => 32,
            Square::B5 => 33,
            Square::C5 => 34,
            Square::D5 => 35,
            Square::E5 => 36,
            Square::F5 => 37,
            Square::G5 => 38,
            Square::H5 => 39,
            Square::A6 => 40,
            Square::B6 => 41,
            Square::C6 => 42,
            Square::D6 => 43,
            Square::E6 => 44,
            Square::F6 => 45,
            Square::G6 => 46,
            Square::H6 => 47,
            Square::A7 => 48,
            Square::B7 => 49,
            Square::C7 => 50,
            Square::D7 => 51,
            Square::E7 => 52,
            Square::F7 => 53,
            Square::G7 => 54,
            Square::H7 => 55,
            Square::A8 => 56,
            Square::B8 => 57,
            Square::C8 => 58,
            Square::D8 => 59,
            Square::E8 => 60,
            Square::F8 => 61,
            Square::G8 => 62,
            Square::H8 => 63,
        }
    }

    /// The index of this square, from 0 for `A1` to 63 for `H8`.
    pub fn as_index(self) -> (index: usize)
        ensures
            index == self.index(),
            index < 64,
    {
        match self {
            Square::A1 => 0,
            Square::B1 => 1,
            Square::C1 => 2,
            Square::D1 => 3,
            Square::E1 => 4,
            Square::F1 => 5,
            Square::G1 => 6,
            Square::H1 => 7,
            Square::A2 => 8,
            Square::B2 => 9,
            Square::C2 => 10,
            Square::D2 => 11,
            Square::E2 => 12,
            Square::F2 => 13,
            Square::G2 => 14,
            Square::H2 => 15,
            Square::A3 => 16,
            Square::B3 => 17,
            Square::C3 => 18,
            Square::D3 => 19,
            Square::E3 => 20,
            Square::F3 => 21,
            Square::G3 => 22,
            Square::H3 => 23,
            Square::A4 => 24,
            Square::B4 => 25,
            Square::C4 => 26,
            Square::D4 => 27,
            Square::E4 => 28,
            Square::F4 => 29,
            Square::G4 => 30,
            Square::H4 => 31,
            Square::A5 => 32,
            Square::B5 => 33,
            Square::C5 => 34,
            Square::D5 => 35,
            Square::E5 => 36,
            Square::F5 => 37,
            Square::G5 => 38,
            Square::H5 => 39,
            Square::A6 => 40,
            Square::B6 => 41,
            Square::C6 => 42,
            Square::D6 => 43,
            Square::E6 => 44,
            Square::F6 => 45,
            Square::G6 => 46,
            Square::H6 => 47,
            Square::A7 => 48,
            Square::B7 => 49,
            Square::C7 => 50,
            Square::D7 => 51,
            Square::E7 => 52,
            Square::F7 => 53,
            Square::G7 => 54,
            Square::H7 => 55,
            Square::A8 => 56,
            Square::B8 => 57,
            Square::C8 => 58,
            Square::D8 => 59,
            Square::E8 => 60,
            Square::F8 => 61,
            Square::G8 => 62,
            Square::H8 => 63,
        }
    }

    /// The square with the given index.
    pub fn from_index(index: usize) -> (square: Square)
        requires
            index < 64,
        ensures
            square.index() == index,
    {
        match index {
            0 => Square::A1,
            1 => Square::B1,
            2 => Square::C1,
            3 => Square::D1,
            4 => Square::E1,
            5 => Square::F1,
            6 => Square::G1,
            7 => Square::H1,
            8 => Square::A2,
            9 => Square::B2,
            10 => Square::C2,
            11 => Square::D2,
            12 => Square::E2,
            13 => Square::F2,
            14 => Square::G2,
            15 => Square::H2,
            16 => Square::A3,
            17 => Square::B3,
            18 => Square::C3,
            19 => Square::D3,
            20 => Square::E3,
            21 => Square::F3,
            22 => Square::G3,
            23 => Square::H3,
            24 => Square::A4,
            25 => Square::B4,
            26 => Square::C4,
            27 => Square::D4,
            28 => Square::E4,
            29 => Square::F4,
            30 => Square::G4,
            31 => Square::H4,
            32 => Square::A5,
            33 => Square::B5,
            34 => Square::C5,
            35 => Square::D5,
            36 => Square::E5,
            37 => Square::F5,
            38 => Square::G5,
            39 => Square::H5,
            40 => Square::A6,
            41 => Square::B6,
            42 => Square::C6,
            43 => Square::D6,
            44 => Square::E6,
            45 => Square::F6,
            46 => Square::G6,
            47 => Square::H6,
            48 => Square::A7,
            49 => Square::B7,
            50 => Square::C7,
            51 => Square::D7,
            52 => Square::E7,
            53 => Square::F7,
            54 => Square::G7,
            55 => Square::H7,
            56 => Square::A8,
            57 => Square::B8,
            58 => Square::C8,
            59 => Square::D8,
            60 => Square::E8,
            61 => Square::F8,
            62 => Square::G8,
            _ => Square::H8,
        }
    }

    /// The square that a text names, such as `e4`. A text that is not one
    /// file letter from a to h followed by one rank digit from 1 to 8 is
    /// rejected as `InvalidSquare`.
    pub fn from_algebraic_notation(notation: &str) -> (r: Result<Square, BoardError>)
        ensures
            match r {
                Ok(square) => parse_square(notation@) == Some(square.index()),
                Err(e) => parse_square(notation@) is None
                    && e.is_of(BoardErrorKind::InvalidSquare, notation@),
            },
    {
        let chars = chars_of(notation);
        match square_index_of(&chars) {
            Some(index) => Ok(Square::from_index(index)),
            None => Err(BoardError::invalid_square(&chars)),
        }
    }

    /// The name of this square in algebraic notation.
    pub fn to_algebraic_notation(self) -> (notation: String)
        ensures
            notation@ == square_name(self.index()),
    {
        let name = square_name_of(self.as_index());
        string_of(&name)
    }
}

/// The index of the square that the characters name, if they name one.
pub fn square_index_of(text: &Vec<char>) -> (r: Option<usize>)
    ensures
        match r {
            Some(index) => parse_square(text@) == Some(index as nat) && index < 64,
            None => parse_square(text@) is None,
        },
{
    if text.len() != 2 {
        return None;
    }
    let file_letter = text[0];
    let rank_digit = text[1];
    if 'a' <= file_letter && file_letter <= 'h' && '1' <= rank_digit && rank_digit <= '8' {
        let file: usize = (file_letter as u32 - 'a' as u32) as usize;
        let rank: usize = (rank_digit as u32 - '1' as u32) as usize;
        Some(8 * rank + file)
    } else {
        None
    }
}

/// The two characters that name the square with the given index.
pub fn square_name_of(index: usize) -> (name: Vec<char>)
    requires
        index < 64,
    ensures
        name@ == square_name(index as nat),
{
    let file: u8 = (index % 8) as u8;
    let rank: u8 = (index / 8) as u8;
    let mut name: Vec<char> = Vec::new();
    name.push((97u8 + file) as char);
    name.push((49u8 + rank) as char);
    assert(name@ =~= square_name(index as nat));
    name
}

} // verus!
