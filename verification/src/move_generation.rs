//! Moves, and the generator of pseudo-legal moves: the moves that the
//! geometry of the pieces and the occupancy of the board allow, whether or
//! not they leave the mover's king in check.

use vstd::prelude::*;
use crate::board::{Board, Position};
use crate::move_laws::{is_pseudo_legal, theorem_generated_moves, theorem_no_move_twice};
use crate::piece::{Color, Piece};
use crate::square::{file_of, rank_of, Square};

verus! {

/// A move: the square a piece leaves and the square it goes to.
#[derive(Debug, Clone, Copy, PartialEq, Eq, Structural)]
pub struct Move {
    pub starting_square: usize,
    pub target_square: usize,
}

impl Move {
    /// The move between two squares given by index.
    pub fn new(starting_square: usize, target_square: usize) -> (mv: Move)
        ensures
            mv == (Move { starting_square, target_square }),
    {
        Self { starting_square, target_square }
    }

    /// The move between two squares given by name.
    pub fn from_square(starting_square: Square, target_square: Square) -> (mv: Move)
        ensures
            mv == (Move {
                starting_square: starting_square.index() as usize,
                target_square: target_square.index() as usize,
            }),
    {
        Self {
            starting_square: starting_square.as_index(),
            target_square: target_square.as_index(),
        }
    }
}

/// The move between two squares of the board.
pub open spec fn move_of(from: int, to: int) -> Move {
    Move { starting_square: from as usize, target_square: to as usize }
}

/// The smaller of two numbers.
pub open spec fn least(a: int, b: int) -> int {
    if a <= b {
        a
    } else {
        b
    }
}

/// The eight ray directions are numbered in this order: north, south, west,
/// east, north-west, south-east, north-east, south-west. This is the step of
/// each in square indices.
pub open spec fn direction_offset(direction: int) -> int {
    if direction == 0 {
        8
    } else if direction == 1 {
        -8
    } else if direction == 2 {
        -1
    } else if direction == 3 {
        1
    } else if direction == 4 {
        7
    } else if direction == 5 {
        -7
    } else if direction == 6 {
        9
    } else {
        -9
    }
}

/// The number of squares between a square and the edge of the board in a
/// direction.
pub open spec fn squares_to_edge(square: int, direction: int) -> int {
    let north = 7 - rank_of(square);
    let south = rank_of(square);
    let west = file_of(square);
    let east = 7 - file_of(square);
    if direction == 0 {
        north
    } else if direction == 1 {
        south
    } else if direction == 2 {
        west
    } else if direction == 3 {
        east
    } else if direction == 4 {
        least(north, west)
    } else if direction == 5 {
        least(south, east)
    } else if direction == 6 {
        least(north, east)
    } else {
        least(south, west)
    }
}

/// The square reached from `from` after `steps` steps in a direction.
pub open spec fn ray_square(from: int, direction: int, steps: int) -> int {
    from + direction_offset(direction) * steps
}

/// Whether a piece of the given colour stands on the square.
pub open spec fn holds_color(p: Position, square: int, color: Color) -> bool {
    p.squares[square] matches Some((_, c)) && c == color
}

/// The moves of a sliding piece along one ray, after `steps` empty squares:
/// on to each empty square in turn, and on to the first occupied square if
/// the piece there is not of the side to move.
pub open spec fn ray_moves(p: Position, from: int, direction: int, steps: int) -> Seq<Move>
    decreases squares_to_edge(from, direction) - steps,
{
    if 0 <= steps < squares_to_edge(from, direction) {
        let target = ray_square(from, direction, steps + 1);
        match p.squares[target] {
            Some((_, color)) => if color != p.to_move {
                seq![move_of(from, target)]
            } else {
                Seq::empty()
            },
            None => seq![move_of(from, target)] + ray_moves(p, from, direction, steps + 1),
        }
    } else {
        Seq::empty()
    }
}

/// The moves of a sliding piece along the rays from `first` up to `end`, in
/// that order.
pub open spec fn rays_moves(p: Position, from: int, first: int, end: int) -> Seq<Move>
    decreases end - first,
{
    if first < end {
        ray_moves(p, from, first, 0) + rays_moves(p, from, first + 1, end)
    } else {
        Seq::empty()
    }
}

/// The first of the ray directions of a kind of piece: a bishop has the four
/// diagonals only.
pub open spec fn first_direction(kind: Piece) -> int {
    if kind == Piece::Bishop {
        4
    } else {
        0
    }
}

/// The end of the ray directions of a kind of piece: a rook has the four
/// orthogonals only.
pub open spec fn end_direction(kind: Piece) -> int {
    if kind == Piece::Rook {
        4
    } else {
        8
    }
}

/// The sliding moves of the piece on a square.
pub open spec fn sliding_moves(p: Position, from: int) -> Seq<Move> {
    match p.squares[from] {
        Some((kind, _)) => rays_moves(p, from, first_direction(kind), end_direction(kind)),
        None => Seq::empty(),
    }
}

/// The eight jumps of a knight in square indices, in the order in which they
/// are tried.
pub open spec fn knight_offset(k: int) -> int {
    if k == 0 {
        -17
    } else if k == 1 {
        -15
    } else if k == 2 {
        -10
    } else if k == 3 {
        -6
    } else if k == 4 {
        6
    } else if k == 5 {
        10
    } else if k == 6 {
        15
    } else {
        17
    }
}

/// The distance between two numbers.
pub open spec fn distance(a: int, b: int) -> int {
    if a <= b {
        b - a
    } else {
        a - b
    }
}

/// A knight's jump in square indices lands on the board without having
/// wrapped round an edge: the target is a square, no more than two ranks and
/// two files away.
pub open spec fn knight_lands(from: int, target: int) -> bool {
    &&& 0 <= target < 64
    &&& distance(rank_of(target), rank_of(from)) <= 2
    &&& distance(file_of(target), file_of(from)) <= 2
}

/// The knight moves from a square by the jumps from the `k`-th on: each jump
/// that lands on a square not held by the side to move.
pub open spec fn knight_moves_from(p: Position, from: int, k: int) -> Seq<Move>
    decreases 8 - k,
{
    if 0 <= k < 8 {
        let target = from + knight_offset(k);
        let this = if knight_lands(from, target) && !holds_color(p, target, p.to_move) {
            seq![move_of(from, target)]
        } else {
            Seq::empty()
        };
        this + knight_moves_from(p, from, k + 1)
    } else {
        Seq::empty()
    }
}

/// The knight moves from a square.
pub open spec fn knight_moves(p: Position, from: int) -> Seq<Move> {
    knight_moves_from(p, from, 0)
}

/// The direction in which the pawns of the side to move advance, in ranks.
pub open spec fn forward(color: Color) -> int {
    match color {
        Color::White => 1,
        Color::Black => -1,
    }
}

/// The rank on which the pawns of a side start.
pub open spec fn home_rank(color: Color) -> int {
    match color {
        Color::White => 1,
        Color::Black => 6,
    }
}

/// The square one rank ahead of a pawn of the side to move is on the board
/// and empty.
pub open spec fn can_push(p: Position, from: int) -> bool {
    let one_up = from + 8 * forward(p.to_move);
    0 <= one_up < 64 && p.squares[one_up] is None
}

/// The single push of a pawn: to the empty square ahead, unless that square
/// is on the last rank, where the pawn would promote.
pub open spec fn pawn_push(p: Position, from: int) -> Seq<Move> {
    let one_up = from + 8 * forward(p.to_move);
    if can_push(p, from) && rank_of(one_up) != 0 && rank_of(one_up) != 7 {
        seq![move_of(from, one_up)]
    } else {
        Seq::empty()
    }
}

/// The capture of a pawn on to `target`: there must stand a piece of the
/// other side, exactly one file away.
pub open spec fn pawn_capture(p: Position, from: int, target: int) -> Seq<Move> {
    if 0 <= target < 64 && holds_color(p, target, p.to_move.opposite()) && distance(
        file_of(target),
        file_of(from),
    ) == 1 {
        seq![move_of(from, target)]
    } else {
        Seq::empty()
    }
}

/// The double push of a pawn: from its home rank, over an empty square on to
/// an empty square.
pub open spec fn pawn_double_push(p: Position, from: int) -> Seq<Move> {
    let two_up = from + 16 * forward(p.to_move);
    if can_push(p, from) && rank_of(from) == home_rank(p.to_move) && p.squares[two_up] is None {
        seq![move_of(from, two_up)]
    } else {
        Seq::empty()
    }
}

/// The moves of a pawn of the side to move from a square: the single push,
/// the two captures, the double push. No promotion and no en-passant capture
/// is among them.
pub open spec fn pawn_moves(p: Position, from: int) -> Seq<Move> {
    pawn_push(p, from) + pawn_capture(p, from, from + 7 * forward(p.to_move)) + pawn_capture(
        p,
        from,
        from + 9 * forward(p.to_move),
    ) + pawn_double_push(p, from)
}

/// The moves from one square: those of the piece on it, if it is a piece of
/// the side to move. Kings have none.
pub open spec fn piece_moves(p: Position, from: int) -> Seq<Move> {
    match p.squares[from] {
        Some((kind, color)) => if color == p.to_move {
            match kind {
                Piece::Queen | Piece::Rook | Piece::Bishop => sliding_moves(p, from),
                Piece::Knight => knight_moves(p, from),
                Piece::Pawn => pawn_moves(p, from),
                Piece::King => Seq::empty(),
            }
        } else {
            Seq::empty()
        },
        None => Seq::empty(),
    }
}

/// The moves from the squares from `from` on, in the order of the squares.
pub open spec fn moves_from(p: Position, from: int) -> Seq<Move>
    decreases 64 - from,
{
    if 0 <= from < 64 {
        piece_moves(p, from) + moves_from(p, from + 1)
    } else {
        Seq::empty()
    }
}

/// The pseudo-legal moves of the side to move.
pub open spec fn pseudo_legal_moves(p: Position) -> Seq<Move> {
    moves_from(p, 0)
}

/// Every step of a ray short of the edge stays on the board.
pub proof fn lemma_ray_on_board(from: int, direction: int, steps: int)
    requires
        0 <= from < 64,
        0 <= direction < 8,
        0 <= steps <= squares_to_edge(from, direction),
    ensures
        0 <= ray_square(from, direction, steps) < 64,
{
}

/// A generator of pseudo-legal moves for the side to move on a board. It
/// holds the tables of the board's geometry, the board, and the list of the
/// moves generated.
pub struct MoveGenerator {
    pub moves: Vec<Move>,
    pub num_squares_to_edge: [[usize; 8]; 64],
    pub direction_offsets: [isize; 8],
    pub board: Board,
}

impl Default for MoveGenerator {
    /// A generator over the starting position.
    fn default() -> (generator: MoveGenerator)
        ensures
            generator.wf(),
            generator.board@ == Position::starting(),
            generator.board.wf(),
            generator.moves@ == Seq::<Move>::empty(),
    {
        Self::new(Board::starting_position())
    }
}

impl MoveGenerator {
    /// The geometry tables hold what the geometry of the board says.
    pub open spec fn wf(&self) -> bool {
        &&& forall|square: int, direction: int|
            0 <= square < 64 && 0 <= direction < 8 ==> (
            #[trigger] self.num_squares_to_edge[square][direction]) == squares_to_edge(
                square,
                direction,
            )
        &&& forall|direction: int|
            0 <= direction < 8 ==> #[trigger] self.direction_offsets[direction]
                == direction_offset(direction)
    }

    /// Nothing but the list of moves differs between the two generators.
    pub open spec fn same_but_moves(&self, other: &MoveGenerator) -> bool {
        &&& self.num_squares_to_edge == other.num_squares_to_edge
        &&& self.direction_offsets == other.direction_offsets
        &&& self.board == other.board
    }

    /// A generator over the given board, with its tables computed and no
    /// move generated yet.
    pub fn new(board: Board) -> (generator: MoveGenerator)
        ensures
            generator.wf(),
            generator.board == board,
            generator.moves@ == Seq::<Move>::empty(),
    {
        Self {
            direction_offsets: [8, -8, -1, 1, 7, -7, 9, -9],
            num_squares_to_edge: Self::precompute_move_data(),
            moves: Vec::new(),
            board,
        }
    }

    /// The pseudo-legal moves of the side to move: every slide, knight's jump
    /// and pawn's move of its pieces, each once and nothing else, in the
    /// order of the squares the pieces stand on. The list of moves of the
    /// generator is replaced by them.
    pub fn generate_moves(&mut self) -> (moves: Vec<Move>)
        requires
            old(self).wf(),
        ensures
            moves@ == pseudo_legal_moves(old(self).board@),
            forall|m: Move| moves@.contains(m) <==> is_pseudo_legal(old(self).board@, m),
            moves@.no_duplicates(),
            final(self).moves@ == moves@,
            final(self).same_but_moves(old(self)),
    {
        self.moves = Vec::new();
        let ghost p = self.board@;
        proof {
            theorem_no_move_twice(p);
            assert forall|m: Move| pseudo_legal_moves(p).contains(m) <==> is_pseudo_legal(p, m) by {
                theorem_generated_moves(p, m);
            }
        }
        let mut square: usize = 0;
        while square < 64
            invariant
                square <= 64,
                self.wf(),
                self.same_but_moves(old(self)),
                p == self.board@,
                pseudo_legal_moves(p) == self.moves@ + moves_from(p, square as int),
            decreases 64 - square,
        {
            let ghost before = self.moves@;
            match self.board.piece_at(square) {
                Some((kind, color)) => {
                    if color == self.board.to_move {
                        match kind {
                            Piece::Queen | Piece::Rook | Piece::Bishop => {
                                self.generate_sliding_moves(square)
                            },
                            Piece::Knight => self.generate_knight_moves(square),
                            Piece::Pawn => self.generate_pawn_moves(square),
                            Piece::King => {},
                        }
                    }
                },
                None => {},
            }
            assert(self.moves@ =~= before + piece_moves(p, square as int));
            assert(self.moves@ + moves_from(p, square + 1) =~= before + (piece_moves(
                p,
                square as int,
            ) + moves_from(p, square + 1)));
            square += 1;
        }
        assert(self.moves@ + moves_from(p, 64) =~= self.moves@);
        self.moves.clone()
    }

    /// Adds the moves of the sliding piece on a square to the list of moves:
    /// along the diagonals for a bishop, along ranks and files for a rook,
    /// along both for any other piece.
    pub fn generate_sliding_moves(&mut self, start_square: usize)
        requires
            old(self).wf(),
            start_square < 64,
            old(self).board@.squares[start_square as int] is Some,
        ensures
            final(self).moves@ == old(self).moves@ + sliding_moves(
                old(self).board@,
                start_square as int,
            ),
            final(self).same_but_moves(old(self)),
    {
        let ghost p = self.board@;
        let ghost from = start_square as int;
        let (first, end): (usize, usize) = match self.board.piece_at(start_square) {
            Some((Piece::Bishop, _)) => (4, 8),
            Some((Piece::Rook, _)) => (0, 4),
            _ => (0, 8),
        };
        let ghost whole = self.moves@ + sliding_moves(p, from);
        let mut direction_index: usize = first;
        while direction_index < end
            invariant
                first <= direction_index <= end <= 8,
                start_square < 64,
                from == start_square,
                self.wf(),
                self.same_but_moves(old(self)),
                p == self.board@,
                whole == self.moves@ + rays_moves(p, from, direction_index as int, end as int),
            decreases end - direction_index,
        {
            let reach: usize = self.num_squares_to_edge[start_square][direction_index];
            let offset: isize = self.direction_offsets[direction_index];
            let ghost rest = rays_moves(p, from, direction_index + 1, end as int);
            let ghost mut ahead = ray_moves(p, from, direction_index as int, 0);
            let mut n: usize = 0;
            while n < reach
                invariant_except_break
                    ahead == ray_moves(p, from, direction_index as int, n as int),
                invariant
                    n <= reach < 8,
                    direction_index < 8,
                    start_square < 64,
                    from == start_square,
                    reach == squares_to_edge(from, direction_index as int),
                    offset == direction_offset(direction_index as int),
                    self.same_but_moves(old(self)),
                    p == self.board@,
                    whole == self.moves@ + ahead + rest,
                ensures
                    ahead == Seq::<Move>::empty(),
                decreases reach - n,
            {
                proof {
                    lemma_ray_on_board(from, direction_index as int, n + 1);
                }
                let ghost before = self.moves@;
                let target_square: usize = (start_square as isize + offset * (n as isize + 1))
                    as usize;
                match self.board.piece_at(target_square) {
                    Some((_, color)) => {
                        if color != self.board.to_move {
                            self.moves.push(Move::new(start_square, target_square));
                        }
                        proof {
                            assert(self.moves@ =~= before + ahead);
                            ahead = Seq::empty();
                            assert(self.moves@ + ahead + rest =~= whole);
                        }
                        break ;
                    },
                    None => {
                        self.moves.push(Move::new(start_square, target_square));
                        proof {
                            assert(self.moves@ + ray_moves(p, from, direction_index as int, n + 1)
                                =~= before + ahead);
                            ahead = ray_moves(p, from, direction_index as int, n + 1);
                        }
                    },
                }
                n += 1;
            }
            assert(self.moves@ + ahead + rest =~= self.moves@ + rest);
            direction_index += 1;
        }
        assert(self.moves@ + rays_moves(p, from, end as int, end as int) =~= self.moves@);
    }

    /// Adds the moves of a knight on a square to the list of moves.
    pub fn generate_knight_moves(&mut self, start_square: usize)
        requires
            start_square < 64,
        ensures
            final(self).moves@ == old(self).moves@ + knight_moves(
                old(self).board@,
                start_square as int,
            ),
            final(self).same_but_moves(old(self)),
    {
        let ghost p = self.board@;
        let ghost from = start_square as int;
        let knight_move_offsets: [isize; 8] = [-17, -15, -10, -6, 6, 10, 15, 17];
        let starting_rank: isize = (start_square / 8) as isize;
        let starting_file: isize = (start_square % 8) as isize;
        let mut k: usize = 0;
        while k < 8
            invariant
                k <= 8,
                start_square < 64,
                from == start_square,
                starting_rank == rank_of(from),
                starting_file == file_of(from),
                forall|j: int| 0 <= j < 8 ==> #[trigger] knight_move_offsets[j] == knight_offset(j),
                self.same_but_moves(old(self)),
                p == self.board@,
                old(self).moves@ + knight_moves(p, from) == self.moves@ + knight_moves_from(
                    p,
                    from,
                    k as int,
                ),
            decreases 8 - k,
        {
            let ghost before = self.moves@;
            let target: isize = start_square as isize + knight_move_offsets[k];
            if 0 <= target && target < 64 {
                let target_rank: isize = target / 8;
                let target_file: isize = target % 8;
                if gap(target_rank, starting_rank) <= 2 && gap(target_file, starting_file) <= 2 {
                    let target_square: usize = target as usize;
                    let friendly = match self.board.piece_at(target_square) {
                        Some((_, color)) => color == self.board.to_move,
                        None => false,
                    };
                    if !friendly {
                        self.moves.push(Move::new(start_square, target_square));
                    }
                }
            }
            assert(self.moves@ + knight_moves_from(p, from, k + 1) =~= before + knight_moves_from(
                p,
                from,
                k as int,
            ));
            k += 1;
        }
        assert(self.moves@ + knight_moves_from(p, from, 8) =~= self.moves@);
    }

    /// Adds the moves of a pawn of the side to move on a square to the list
    /// of moves.
    pub fn generate_pawn_moves(&mut self, start_square: usize)
        requires
            start_square < 64,
        ensures
            final(self).moves@ == old(self).moves@ + pawn_moves(
                old(self).board@,
                start_square as int,
            ),
            final(self).same_but_moves(old(self)),
    {
        let ghost p = self.board@;
        let ghost from = start_square as int;
        let toward: isize = match self.board.to_move {
            Color::White => 1,
            Color::Black => -1,
        };
        let start: isize = start_square as isize;

        let can_move_up_one_rank = self.push_pawn(start_square, start + 8 * toward);
        self.capture_with_pawn(start_square, start + 7 * toward);
        self.capture_with_pawn(start_square, start + 9 * toward);
        let ghost captured = self.moves@;

        let home: isize = match self.board.to_move {
            Color::White => 1,
            Color::Black => 6,
        };
        if can_move_up_one_rank && start / 8 == home {
            let target_two_up: isize = start + 16 * toward;
            if self.board.piece_at(target_two_up as usize).is_none() {
                self.moves.push(Move::new(start_square, target_two_up as usize));
            }
        }
        assert(self.moves@ =~= captured + pawn_double_push(p, from));
    }

    /// Adds the single push of a pawn to the list of moves, if it has one,
    /// and says whether the square ahead of the pawn is on the board and
    /// empty.
    fn push_pawn(&mut self, start_square: usize, target_one_up: isize) -> (can_move_up: bool)
        requires
            start_square < 64,
            target_one_up == start_square + 8 * forward(old(self).board@.to_move),
        ensures
            can_move_up == can_push(old(self).board@, start_square as int),
            final(self).moves@ == old(self).moves@ + pawn_push(
                old(self).board@,
                start_square as int,
            ),
            final(self).same_but_moves(old(self)),
    {
        let can_move_up = 0 <= target_one_up && target_one_up < 64 && self.board.piece_at(
            target_one_up as usize,
        ).is_none();
        if can_move_up {
            let target_one_up_rank: isize = target_one_up / 8;
            let is_promotion_move = target_one_up_rank == 0 || target_one_up_rank == 7;
            if !is_promotion_move {
                self.moves.push(Move::new(start_square, target_one_up as usize));
            }
        }
        assert(self.moves@ =~= old(self).moves@ + pawn_push(old(self).board@, start_square as int));
        can_move_up
    }

    /// Adds the capture of a pawn on to a target to the list of moves, if
    /// the pawn can capture there.
    fn capture_with_pawn(&mut self, start_square: usize, capture_index: isize)
        requires
            start_square < 64,
            -64 <= capture_index <= 128,
        ensures
            final(self).moves@ == old(self).moves@ + pawn_capture(
                old(self).board@,
                start_square as int,
                capture_index as int,
            ),
            final(self).same_but_moves(old(self)),
    {
        if 0 <= capture_index && capture_index < 64 {
            let starting_file: isize = (start_square % 8) as isize;
            let target_file: isize = capture_index % 8;
            let enemy = match self.board.piece_at(capture_index as usize) {
                Some((_, color)) => color != self.board.to_move,
                None => false,
            };
            if enemy && gap(target_file, starting_file) == 1 {
                self.moves.push(Move::new(start_square, capture_index as usize));
            }
        }
        assert(self.moves@ =~= old(self).moves@ + pawn_capture(
            old(self).board@,
            start_square as int,
            capture_index as int,
        ));
    }

    /// Whether the move between the two squares is in the list of moves.
    pub fn generated_move(&self, starting_square: Square, target_square: Square) -> (found: bool)
        ensures
            found == self.moves@.contains(
                Move {
                    starting_square: starting_square.index() as usize,
                    target_square: target_square.index() as usize,
                },
            ),
    {
        let wanted = Move::from_square(starting_square, target_square);
        let mut i: usize = 0;
        while i < self.moves.len()
            invariant
                i <= self.moves.len(),
                wanted == (Move {
                    starting_square: starting_square.index() as usize,
                    target_square: target_square.index() as usize,
                }),
                forall|j: int| 0 <= j < i ==> self.moves@[j] != wanted,
            decreases self.moves.len() - i,
        {
            if self.moves[i] == wanted {
                assert(self.moves@[i as int] == wanted);
                return true;
            }
            i += 1;
        }
        false
    }

    /// For each square and each of the eight directions, the number of
    /// squares to the edge of the board.
    pub fn precompute_move_data() -> (table: [[usize; 8]; 64])
        ensures
            forall|square: int, direction: int|
                0 <= square < 64 && 0 <= direction < 8 ==> (#[trigger] table[square][direction])
                    == squares_to_edge(square, direction),
    {
        let zeros: [usize; 8] = [0; 8];
        let mut table: [[usize; 8]; 64] = [zeros; 64];
        let mut square: usize = 0;
        while square < 64
            invariant
                square <= 64,
                forall|s: int, direction: int|
                    0 <= s < square && 0 <= direction < 8 ==> (#[trigger] table[s][direction])
                        == squares_to_edge(s, direction),
            decreases 64 - square,
        {
            let rank: usize = square / 8;
            let file: usize = square % 8;
            let north: usize = 7 - rank;
            let south: usize = rank;
            let east: usize = 7 - file;
            let west: usize = file;
            table[square] = [
                north,
                south,
                west,
                east,
                smaller(north, west),
                smaller(south, east),
                smaller(north, east),
                smaller(south, west),
            ];
            square += 1;
        }
        table
    }
}

/// The distance between two numbers.
fn gap(a: isize, b: isize) -> (d: isize)
    requires
        -64 <= a <= 64,
        -64 <= b <= 64,
    ensures
        d == distance(a as int, b as int),
{
    if a <= b {
        b - a
    } else {
        a - b
    }
}

/// The smaller of two numbers.
fn smaller(a: usize, b: usize) -> (least_of: usize)
    ensures
        least_of == least(a as int, b as int),
{
    if a <= b {
        a
    } else {
        b
    }
}

} // verus!
