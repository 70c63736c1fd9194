//! A chess position with its FEN text form, and a generator of pseudo-legal
//! moves over it.
//!
//! - [`board`]: the position, its mathematical view, and the operations on it.
//! - [`fen`]: what the six fields of FEN text mean, and how they are read and
//!   written.
//! - [`round_trip`]: writing a position and reading it again gives it back.
//! - [`known_positions`]: the text of the empty board and of the starting
//!   position.
//! - [`move_generation`]: moves, the geometry tables and the generator.
//! - [`move_laws`]: the generated moves said by files and ranks.
//! - [`piece`], [`square`], [`text`]: pieces and their letters, squares and
//!   their names, characters and numbers.

pub mod board;
pub mod fen;
pub mod known_positions;
pub mod move_generation;
pub mod move_laws;
pub mod piece;
pub mod round_trip;
pub mod square;
pub mod text;
