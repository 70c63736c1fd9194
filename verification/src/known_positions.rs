//! The FEN text of the empty board and of the starting position.

use vstd::prelude::*;
use crate::board::{BoardErrorKind, Position, Squares};
use crate::fen::{emit_below, emit_fen, emit_files, emit_placement, emit_ranks, parse_fen};
use crate::round_trip::theorem_fen_round_trip;
use crate::square::square_at;
use crate::text::decimal;

verus! {

/// A rank and the ranks below it are the rank, then `/`, then the ranks
/// below it.
proof fn lemma_rank_then_below(squares: Squares, rank: int)
    requires
        0 < rank,
    ensures
        emit_ranks(squares, rank) == emit_files(squares, rank, 0, 0) + seq!['/'] + emit_ranks(
            squares,
            rank - 1,
        ),
        emit_ranks(squares, 0) == emit_files(squares, 0, 0, 0),
{
    assert(emit_below(squares, 0) =~= Seq::<char>::empty());
    assert(emit_ranks(squares, 0) =~= emit_files(squares, 0, 0, 0));
    assert(emit_ranks(squares, rank) =~= emit_files(squares, rank, 0, 0) + seq!['/'] + emit_ranks(
        squares,
        rank - 1,
    ));
}

/// The text of an empty rank.
proof fn lemma_empty_rank(squares: Squares, rank: int)
    requires
        0 <= rank < 8,
        forall|file: int| 0 <= file < 8 ==> squares[#[trigger] square_at(file, rank)] is None,
    ensures
        emit_files(squares, rank, 0, 0) == seq!['8'],
{
    reveal_with_fuel(emit_files, 10);
    assert(squares[square_at(0, rank)] is None);
    assert(squares[square_at(1, rank)] is None);
    assert(squares[square_at(2, rank)] is None);
    assert(squares[square_at(3, rank)] is None);
    assert(squares[square_at(4, rank)] is None);
    assert(squares[square_at(5, rank)] is None);
    assert(squares[square_at(6, rank)] is None);
    assert(squares[square_at(7, rank)] is None);
    assert(emit_files(squares, rank, 0, 0) =~= seq!['8']);
}

/// The FEN text of the empty board, written and read.
pub proof fn theorem_empty_board_fen()
    ensures
        emit_fen(Position::empty()) == "8/8/8/8/8/8/8/8 w - - 0 1"@,
        parse_fen("8/8/8/8/8/8/8/8 w - - 0 1"@) == Ok::<Position, BoardErrorKind>(
            Position::empty(),
        ),
{
    let p = Position::empty();
    reveal_strlit("8/8/8/8/8/8/8/8 w - - 0 1");
    reveal_strlit("8/8/8/8/8/8/8/8");
    assert(emit_placement(p.squares) =~= "8/8/8/8/8/8/8/8"@) by {
        lemma_empty_rank(p.squares, 0);
        lemma_empty_rank(p.squares, 1);
        lemma_empty_rank(p.squares, 2);
        lemma_empty_rank(p.squares, 3);
        lemma_empty_rank(p.squares, 4);
        lemma_empty_rank(p.squares, 5);
        lemma_empty_rank(p.squares, 6);
        lemma_empty_rank(p.squares, 7);
        lemma_rank_then_below(p.squares, 1);
        lemma_rank_then_below(p.squares, 2);
        lemma_rank_then_below(p.squares, 3);
        lemma_rank_then_below(p.squares, 4);
        lemma_rank_then_below(p.squares, 5);
        lemma_rank_then_below(p.squares, 6);
        lemma_rank_then_below(p.squares, 7);
    }
    assert(decimal(0) =~= seq!['0']);
    assert(decimal(1) =~= seq!['1']);
    assert(emit_fen(p) =~= "8/8/8/8/8/8/8/8 w - - 0 1"@);
    theorem_fen_round_trip(p);
}

/// The FEN text of the starting position, written and read.
pub proof fn theorem_starting_position_fen()
    ensures
        emit_fen(Position::starting())
            == "rnbqkbnr/pppppppp/8/8/8/8/PPPPPPPP/RNBQKBNR w KQkq - 0 1"@,
        parse_fen("rnbqkbnr/pppppppp/8/8/8/8/PPPPPPPP/RNBQKBNR w KQkq - 0 1"@) == Ok::<
            Position,
            BoardErrorKind,
        >(Position::starting()),
{
    let p = Position::starting();
    let squares = p.squares;
    reveal_strlit("rnbqkbnr/pppppppp/8/8/8/8/PPPPPPPP/RNBQKBNR w KQkq - 0 1");
    reveal_strlit("rnbqkbnr/pppppppp/8/8/8/8/PPPPPPPP/RNBQKBNR");
    lemma_empty_rank(squares, 2);
    lemma_empty_rank(squares, 3);
    lemma_empty_rank(squares, 4);
    lemma_empty_rank(squares, 5);
    assert(emit_files(squares, 7, 0, 0) =~= seq!['r', 'n', 'b', 'q', 'k', 'b', 'n', 'r']) by {
        reveal_with_fuel(emit_files, 10);
    }
    assert(emit_files(squares, 6, 0, 0) =~= seq!['p', 'p', 'p', 'p', 'p', 'p', 'p', 'p']) by {
        reveal_with_fuel(emit_files, 10);
    }
    assert(emit_files(squares, 1, 0, 0) =~= seq!['P', 'P', 'P', 'P', 'P', 'P', 'P', 'P']) by {
        reveal_with_fuel(emit_files, 10);
    }
    assert(emit_files(squares, 0, 0, 0) =~= seq!['R', 'N', 'B', 'Q', 'K', 'B', 'N', 'R']) by {
        reveal_with_fuel(emit_files, 10);
    }
    assert(emit_placement(squares) =~= "rnbqkbnr/pppppppp/8/8/8/8/PPPPPPPP/RNBQKBNR"@) by {
        lemma_rank_then_below(squares, 1);
        lemma_rank_then_below(squares, 2);
        lemma_rank_then_below(squares, 3);
        lemma_rank_then_below(squares, 4);
        lemma_rank_then_below(squares, 5);
        lemma_rank_then_below(squares, 6);
        lemma_rank_then_below(squares, 7);
    }
    assert(decimal(0) =~= seq!['0']);
    assert(decimal(1) =~= seq!['1']);
    assert(emit_fen(p) =~= "rnbqkbnr/pppppppp/8/8/8/8/PPPPPPPP/RNBQKBNR w KQkq - 0 1"@);
    theorem_fen_round_trip(p);
}

} // verus!
