//! What the generated moves are, said by files and ranks: which squares a
//! piece reaches, and that no move wraps round an edge of the board.

use vstd::prelude::*;
use crate::board::Position;
use crate::move_generation::{
    direction_offset, distance, end_direction, first_direction, forward, holds_color, home_rank,
    knight_lands, knight_moves, knight_moves_from, knight_offset, lemma_ray_on_board, move_of,
    moves_from, pawn_capture, pawn_double_push, pawn_moves, pawn_push, piece_moves,
    pseudo_legal_moves, ray_moves, ray_square, rays_moves, sliding_moves, squares_to_edge, Move,
};
use crate::piece::{Color, Piece};
use crate::square::{file_of, rank_of, square_at};

verus! {

/// The file and the rank are those of a square of the board.
pub open spec fn on_board(file: int, rank: int) -> bool {
    0 <= file < 8 && 0 <= rank < 8
}

/// The change of file of one step in a direction.
pub open spec fn direction_file_step(direction: int) -> int {
    if direction == 2 || direction == 4 || direction == 7 {
        -1
    } else if direction == 3 || direction == 5 || direction == 6 {
        1
    } else {
        0
    }
}

/// The change of rank of one step in a direction.
pub open spec fn direction_rank_step(direction: int) -> int {
    if direction == 0 || direction == 4 || direction == 6 {
        1
    } else if direction == 1 || direction == 5 || direction == 7 {
        -1
    } else {
        0
    }
}

/// A sequence joined from two holds what either holds.
pub proof fn lemma_contains_concat<T>(a: Seq<T>, b: Seq<T>, x: T)
    ensures
        (a + b).contains(x) <==> a.contains(x) || b.contains(x),
{
    if a.contains(x) {
        let i = choose|i: int| 0 <= i < a.len() && a[i] == x;
        assert((a + b)[i] == x);
    }
    if b.contains(x) {
        let i = choose|i: int| 0 <= i < b.len() && b[i] == x;
        assert((a + b)[a.len() + i] == x);
    }
    if (a + b).contains(x) {
        let i = choose|i: int| 0 <= i < (a + b).len() && (a + b)[i] == x;
        if i < a.len() {
            assert(a[i] == x);
        } else {
            assert(b[i - a.len()] == x);
        }
    }
}

/// A sequence of one element holds that element only.
pub proof fn lemma_contains_one<T>(e: T, x: T)
    ensures
        seq![e].contains(x) <==> x == e,
{
    if x == e {
        assert(seq![e][0] == x);
    }
}

/// The empty sequence holds nothing.
pub proof fn lemma_contains_none<T>(x: T)
    ensures
        !Seq::<T>::empty().contains(x),
{
}

/// The tables say what files and ranks say: `steps` steps in a direction stay
/// on the board exactly up to the distance to the edge, and lead to the
/// square that many files and ranks away.
pub proof fn lemma_ray_geometry(from: int, direction: int, steps: int)
    requires
        0 <= from < 64,
        0 <= direction < 8,
        0 <= steps,
    ensures
        steps <= squares_to_edge(from, direction) <==> on_board(
            file_of(from) + steps * direction_file_step(direction),
            rank_of(from) + steps * direction_rank_step(direction),
        ),
        steps <= squares_to_edge(from, direction) ==> ray_square(from, direction, steps)
            == square_at(
            file_of(from) + steps * direction_file_step(direction),
            rank_of(from) + steps * direction_rank_step(direction),
        ),
{
}

/// The squares of a ray before its `steps`-th are empty.
pub open spec fn ray_clear(p: Position, from: int, direction: int, steps: int) -> bool {
    forall|j: int| 1 <= j < steps ==> p.squares[#[trigger] ray_square(from, direction, j)] is None
}

/// A sliding piece on `from` can go `steps` steps in a direction: that is no
/// further than the edge, the squares on the way are empty, and no piece of
/// the side to move stands on the last.
pub open spec fn slides(p: Position, from: int, direction: int, steps: int) -> bool {
    &&& 1 <= steps <= squares_to_edge(from, direction)
    &&& ray_clear(p, from, direction, steps)
    &&& !holds_color(p, ray_square(from, direction, steps), p.to_move)
}

/// The move is a slide from `from` in the direction, of more than `steps`
/// steps.
pub open spec fn is_slide_beyond(
    p: Position,
    from: int,
    direction: int,
    steps: int,
    m: Move,
) -> bool {
    exists|k: int|
        steps < k && #[trigger] slides(p, from, direction, k) && m == move_of(
            from,
            ray_square(from, direction, k),
        )
}

/// The squares of a ray stay empty one square further where that square is
/// empty.
proof fn lemma_ray_clear_further(p: Position, from: int, direction: int, steps: int)
    requires
        ray_clear(p, from, direction, steps),
        p.squares[ray_square(from, direction, steps)] is None,
    ensures
        ray_clear(p, from, direction, steps + 1),
{
    assert forall|j: int| 1 <= j < steps + 1 implies p.squares[#[trigger] ray_square(
        from,
        direction,
        j,
    )] is None by {}
}

/// The moves along a ray after `steps` empty squares are the slides of more
/// than `steps` steps.
pub proof fn lemma_ray_moves(p: Position, from: int, direction: int, steps: int, m: Move)
    requires
        0 <= from < 64,
        0 <= direction < 8,
        0 <= steps,
        ray_clear(p, from, direction, steps + 1),
    ensures
        ray_moves(p, from, direction, steps).contains(m) <==> is_slide_beyond(
            p,
            from,
            direction,
            steps,
            m,
        ),
    decreases squares_to_edge(from, direction) - steps,
{
    let moves = ray_moves(p, from, direction, steps);
    let target = ray_square(from, direction, steps + 1);
    let first = move_of(from, target);
    if steps < squares_to_edge(from, direction) {
        match p.squares[target] {
            Some((_, color)) => {
                if is_slide_beyond(p, from, direction, steps, m) {
                    let k = choose|k: int|
                        steps < k && #[trigger] slides(p, from, direction, k) && m == move_of(
                            from,
                            ray_square(from, direction, k),
                        );
                    if k > steps + 1 {
                        assert(p.squares[ray_square(from, direction, steps + 1)] is None);
                    }
                    assert(k == steps + 1);
                }
                if color != p.to_move {
                    lemma_contains_one(first, m);
                    if m == first {
                        assert(slides(p, from, direction, steps + 1));
                    }
                } else {
                    lemma_contains_none(m);
                }
            },
            None => {
                let rest = ray_moves(p, from, direction, steps + 1);
                lemma_ray_clear_further(p, from, direction, steps + 1);
                lemma_ray_moves(p, from, direction, steps + 1, m);
                lemma_contains_one(first, m);
                lemma_contains_concat(seq![first], rest, m);
                if m == first {
                    assert(slides(p, from, direction, steps + 1));
                }
                if is_slide_beyond(p, from, direction, steps + 1, m) {
                    let k = choose|k: int|
                        steps + 1 < k && #[trigger] slides(p, from, direction, k) && m == move_of(
                            from,
                            ray_square(from, direction, k),
                        );
                    assert(steps < k);
                }
                if is_slide_beyond(p, from, direction, steps, m) {
                    let k = choose|k: int|
                        steps < k && #[trigger] slides(p, from, direction, k) && m == move_of(
                            from,
                            ray_square(from, direction, k),
                        );
                    if k > steps + 1 {
                        assert(is_slide_beyond(p, from, direction, steps + 1, m));
                    }
                }
            },
        }
    } else {
        lemma_contains_none(m);
    }
}

/// The move is a slide from `from` in one of the directions from `first` up
/// to `end`.
pub open spec fn is_slide_among(p: Position, from: int, first: int, end: int, m: Move) -> bool {
    exists|direction: int|
        first <= direction < end && #[trigger] is_slide_beyond(p, from, direction, 0, m)
}

/// The moves along the rays from `first` up to `end` are the slides in those
/// directions.
pub proof fn lemma_rays_moves(p: Position, from: int, first: int, end: int, m: Move)
    requires
        0 <= from < 64,
        0 <= first,
        end <= 8,
    ensures
        rays_moves(p, from, first, end).contains(m) <==> is_slide_among(p, from, first, end, m),
    decreases end - first,
{
    if first < end {
        let here = ray_moves(p, from, first, 0);
        let rest = rays_moves(p, from, first + 1, end);
        lemma_ray_moves(p, from, first, 0, m);
        lemma_rays_moves(p, from, first + 1, end, m);
        lemma_contains_concat(here, rest, m);
        if is_slide_among(p, from, first + 1, end, m) {
            let direction = choose|direction: int|
                first + 1 <= direction < end && #[trigger] is_slide_beyond(
                    p,
                    from,
                    direction,
                    0,
                    m,
                );
            assert(first <= direction < end);
        }
        if is_slide_among(p, from, first, end, m) {
            let direction = choose|direction: int|
                first <= direction < end && #[trigger] is_slide_beyond(p, from, direction, 0, m);
            if direction != first {
                assert(first + 1 <= direction < end);
            }
        }
    } else {
        lemma_contains_none(m);
    }
}

/// The sliding moves of the piece on a square are its slides: along the
/// diagonals for a bishop, along ranks and files for a rook, along both for
/// any other piece.
pub proof fn lemma_sliding_moves(p: Position, from: int, kind: Piece, color: Color, m: Move)
    requires
        0 <= from < 64,
        p.squares[from] == Some((kind, color)),
    ensures
        sliding_moves(p, from).contains(m) <==> is_slide_among(
            p,
            from,
            first_direction(kind),
            end_direction(kind),
            m,
        ),
{
    lemma_rays_moves(p, from, first_direction(kind), end_direction(kind), m);
}

/// The change of file of each of the eight jumps of a knight.
pub open spec fn knight_file_jump(k: int) -> int {
    if k == 0 || k == 6 {
        -1
    } else if k == 1 || k == 7 {
        1
    } else if k == 2 || k == 4 {
        -2
    } else {
        2
    }
}

/// The change of rank of each of the eight jumps of a knight.
pub open spec fn knight_rank_jump(k: int) -> int {
    if k == 0 || k == 1 {
        -2
    } else if k == 2 || k == 3 {
        -1
    } else if k == 4 || k == 5 {
        1
    } else {
        2
    }
}

/// A jump in square indices lands, by the test on rank and file distances,
/// exactly where the jump by files and ranks stays on the board; and it then
/// leads to the square that many files and ranks away. No jump wraps round
/// an edge.
pub proof fn lemma_knight_geometry(from: int, k: int)
    requires
        0 <= from < 64,
        0 <= k < 8,
    ensures
        knight_lands(from, from + knight_offset(k)) <==> on_board(
            file_of(from) + knight_file_jump(k),
            rank_of(from) + knight_rank_jump(k),
        ),
        knight_lands(from, from + knight_offset(k)) ==> from + knight_offset(k) == square_at(
            file_of(from) + knight_file_jump(k),
            rank_of(from) + knight_rank_jump(k),
        ),
{
}

/// The move is the `k`-th jump of a knight from `from`: the jump stays on the
/// board and lands on a square that no piece of the side to move holds.
pub open spec fn is_knight_jump(p: Position, from: int, k: int, m: Move) -> bool {
    let file = file_of(from) + knight_file_jump(k);
    let rank = rank_of(from) + knight_rank_jump(k);
    &&& on_board(file, rank)
    &&& !holds_color(p, square_at(file, rank), p.to_move)
    &&& m == move_of(from, square_at(file, rank))
}

/// The move is one of the jumps of a knight from `from`, from the `first` on.
pub open spec fn is_knight_move_from(p: Position, from: int, first: int, m: Move) -> bool {
    exists|k: int| first <= k < 8 && #[trigger] is_knight_jump(p, from, k, m)
}

/// The knight moves by the jumps from the `first` on are those jumps that
/// stay on the board and land on no piece of the side to move.
pub proof fn lemma_knight_moves_from(p: Position, from: int, first: int, m: Move)
    requires
        0 <= from < 64,
        0 <= first,
    ensures
        knight_moves_from(p, from, first).contains(m) <==> is_knight_move_from(p, from, first, m),
    decreases 8 - first,
{
    if first < 8 {
        let target = from + knight_offset(first);
        let this = if knight_lands(from, target) && !holds_color(p, target, p.to_move) {
            seq![move_of(from, target)]
        } else {
            Seq::empty()
        };
        let rest = knight_moves_from(p, from, first + 1);
        lemma_knight_geometry(from, first);
        lemma_knight_moves_from(p, from, first + 1, m);
        lemma_contains_concat(this, rest, m);
        lemma_contains_one(move_of(from, target), m);
        lemma_contains_none(m);
        if is_knight_move_from(p, from, first + 1, m) {
            let k = choose|k: int| first + 1 <= k < 8 && #[trigger] is_knight_jump(p, from, k, m);
            assert(first <= k < 8);
        }
        if this.contains(m) {
            assert(is_knight_jump(p, from, first, m));
        }
        if is_knight_move_from(p, from, first, m) {
            let k = choose|k: int| first <= k < 8 && #[trigger] is_knight_jump(p, from, k, m);
            if k != first {
                assert(first + 1 <= k < 8);
            }
        }
    } else {
        lemma_contains_none(m);
    }
}

/// The knight moves from a square are the jumps that stay on the board and
/// land on no piece of the side to move.
pub proof fn lemma_knight_moves(p: Position, from: int, m: Move)
    requires
        0 <= from < 64,
    ensures
        knight_moves(p, from).contains(m) <==> is_knight_move_from(p, from, 0, m),
{
    lemma_knight_moves_from(p, from, 0, m);
}

/// The move is the single push of a pawn on `from`: one rank ahead on the
/// same file, on to an empty square that is not on the last rank.
pub open spec fn is_pawn_push(p: Position, from: int, m: Move) -> bool {
    let file = file_of(from);
    let rank = rank_of(from) + forward(p.to_move);
    &&& 0 < rank < 7
    &&& p.squares[square_at(file, rank)] is None
    &&& m == move_of(from, square_at(file, rank))
}

/// The move is a capture of a pawn on `from` towards the file `side` files
/// away: one rank ahead, on to a piece of the other side.
pub open spec fn is_pawn_capture(p: Position, from: int, side: int, m: Move) -> bool {
    let file = file_of(from) + side;
    let rank = rank_of(from) + forward(p.to_move);
    &&& on_board(file, rank)
    &&& holds_color(p, square_at(file, rank), p.to_move.opposite())
    &&& m == move_of(from, square_at(file, rank))
}

/// The move is the double push of a pawn on `from`: from the home rank, two
/// ranks ahead on the same file, with both squares ahead empty.
pub open spec fn is_pawn_double_push(p: Position, from: int, m: Move) -> bool {
    let file = file_of(from);
    let rank = rank_of(from);
    let ahead = forward(p.to_move);
    &&& rank == home_rank(p.to_move)
    &&& p.squares[square_at(file, rank + ahead)] is None
    &&& p.squares[square_at(file, rank + 2 * ahead)] is None
    &&& m == move_of(from, square_at(file, rank + 2 * ahead))
}

/// The move is a move of a pawn of the side to move on `from`.
pub open spec fn is_pawn_move(p: Position, from: int, m: Move) -> bool {
    ||| is_pawn_push(p, from, m)
    ||| is_pawn_capture(p, from, -1, m)
    ||| is_pawn_capture(p, from, 1, m)
    ||| is_pawn_double_push(p, from, m)
}

/// The single push, as files and ranks say it.
proof fn lemma_pawn_push(p: Position, from: int, m: Move)
    requires
        0 <= from < 64,
    ensures
        pawn_push(p, from).contains(m) <==> is_pawn_push(p, from, m),
{
    lemma_contains_none(m);
    lemma_contains_one(move_of(from, from + 8 * forward(p.to_move)), m);
}

/// A capture, as files and ranks say it: the test on the file distance lets
/// through exactly the targets on a neighbouring file, one rank ahead.
proof fn lemma_pawn_capture(p: Position, from: int, side: int, m: Move)
    requires
        0 <= from < 64,
        side == 1 || side == -1,
    ensures
        pawn_capture(p, from, from + 8 * forward(p.to_move) + side).contains(m)
            <==> is_pawn_capture(p, from, side, m),
{
    lemma_contains_none(m);
    lemma_contains_one(move_of(from, from + 8 * forward(p.to_move) + side), m);
}

/// The double push, as files and ranks say it.
proof fn lemma_pawn_double_push(p: Position, from: int, m: Move)
    requires
        0 <= from < 64,
    ensures
        pawn_double_push(p, from).contains(m) <==> is_pawn_double_push(p, from, m),
{
    lemma_contains_none(m);
    lemma_contains_one(move_of(from, from + 16 * forward(p.to_move)), m);
}

/// The moves of a pawn are its single push, its captures to either side and
/// its double push, as files and ranks say them. No capture wraps round an
/// edge.
pub proof fn lemma_pawn_moves(p: Position, from: int, m: Move)
    requires
        0 <= from < 64,
    ensures
        pawn_moves(p, from).contains(m) <==> is_pawn_move(p, from, m),
{
    let ahead = forward(p.to_move);
    let push = pawn_push(p, from);
    let first = pawn_capture(p, from, from + 7 * ahead);
    let second = pawn_capture(p, from, from + 9 * ahead);
    let double = pawn_double_push(p, from);
    lemma_contains_concat(push + first + second, double, m);
    lemma_contains_concat(push + first, second, m);
    lemma_contains_concat(push, first, m);
    lemma_pawn_push(p, from, m);
    lemma_pawn_capture(p, from, -ahead, m);
    lemma_pawn_capture(p, from, ahead, m);
    lemma_pawn_double_push(p, from, m);
    assert(from + 7 * ahead == from + 8 * ahead + (-ahead));
    assert(from + 9 * ahead == from + 8 * ahead + ahead);
}

/// The move is a pseudo-legal move of the piece on its starting square: that
/// piece is of the side to move, and the move is one of its kind. A king has
/// none.
pub open spec fn is_pseudo_legal(p: Position, m: Move) -> bool {
    let from = m.starting_square as int;
    &&& from < 64
    &&& match p.squares[from] {
        Some((kind, color)) => color == p.to_move && match kind {
            Piece::Queen | Piece::Rook | Piece::Bishop => is_slide_among(
                p,
                from,
                first_direction(kind),
                end_direction(kind),
                m,
            ),
            Piece::Knight => is_knight_move_from(p, from, 0, m),
            Piece::Pawn => is_pawn_move(p, from, m),
            Piece::King => false,
        },
        None => false,
    }
}

/// The moves from one square are the pseudo-legal moves that start there.
pub proof fn lemma_piece_moves(p: Position, from: int, m: Move)
    requires
        0 <= from < 64,
    ensures
        piece_moves(p, from).contains(m) <==> m.starting_square == from && is_pseudo_legal(p, m),
{
    lemma_contains_none(m);
    match p.squares[from] {
        Some((kind, color)) => {
            lemma_sliding_moves(p, from, kind, color, m);
            lemma_knight_moves(p, from, m);
            lemma_pawn_moves(p, from, m);
            if is_slide_among(p, from, first_direction(kind), end_direction(kind), m) {
                let direction = choose|direction: int|
                    first_direction(kind) <= direction < end_direction(kind)
                        && #[trigger] is_slide_beyond(p, from, direction, 0, m);
                let k = choose|k: int|
                    0 < k && #[trigger] slides(p, from, direction, k) && m == move_of(
                        from,
                        ray_square(from, direction, k),
                    );
                assert(m.starting_square == from);
            }
            if is_knight_move_from(p, from, 0, m) {
                let k = choose|k: int| 0 <= k < 8 && #[trigger] is_knight_jump(p, from, k, m);
                assert(m.starting_square == from);
            }
        },
        None => {},
    }
}

/// The moves from the squares from `first` on are the pseudo-legal moves that
/// start on one of them.
pub proof fn lemma_moves_from(p: Position, first: int, m: Move)
    requires
        0 <= first,
    ensures
        moves_from(p, first).contains(m) <==> first <= m.starting_square && is_pseudo_legal(p, m),
    decreases 64 - first,
{
    if first < 64 {
        lemma_piece_moves(p, first, m);
        lemma_moves_from(p, first + 1, m);
        lemma_contains_concat(piece_moves(p, first), moves_from(p, first + 1), m);
    } else {
        lemma_contains_none(m);
    }
}

/// The generated moves are exactly the pseudo-legal moves: a move is
/// generated if and only if it is a slide, a knight's jump or a pawn's move
/// of a piece of the side to move, as files and ranks say them.
pub proof fn theorem_generated_moves(p: Position, m: Move)
    ensures
        pseudo_legal_moves(p).contains(m) <==> is_pseudo_legal(p, m),
{
    lemma_moves_from(p, 0, m);
}

/// A pseudo-legal move ends on a square of the board other than the one it
/// starts on, and never on a piece of the side to move.
pub proof fn theorem_moves_stay_on_board(p: Position, m: Move)
    requires
        is_pseudo_legal(p, m),
    ensures
        m.starting_square < 64,
        m.target_square < 64,
        m.target_square != m.starting_square,
        !holds_color(p, m.target_square as int, p.to_move),
{
    let from = m.starting_square as int;
    match p.squares[from] {
        Some((kind, color)) => {
            if is_slide_among(p, from, first_direction(kind), end_direction(kind), m) {
                let direction = choose|direction: int|
                    first_direction(kind) <= direction < end_direction(kind)
                        && #[trigger] is_slide_beyond(p, from, direction, 0, m);
                let k = choose|k: int|
                    0 < k && #[trigger] slides(p, from, direction, k) && m == move_of(
                        from,
                        ray_square(from, direction, k),
                    );
                lemma_ray_geometry(from, direction, k);
            }
            if is_knight_move_from(p, from, 0, m) {
                let k = choose|k: int| 0 <= k < 8 && #[trigger] is_knight_jump(p, from, k, m);
            }
        },
        None => {},
    }
}

/// A slide goes along a straight line: its target lies the same number of
/// steps away in files and in ranks as the direction says, so it never wraps
/// round an edge of the board.
pub proof fn theorem_slides_are_straight(p: Position, from: int, direction: int, steps: int)
    requires
        0 <= from < 64,
        0 <= direction < 8,
        slides(p, from, direction, steps),
    ensures
        file_of(ray_square(from, direction, steps)) == file_of(from) + steps * direction_file_step(
            direction,
        ),
        rank_of(ray_square(from, direction, steps)) == rank_of(from) + steps * direction_rank_step(
            direction,
        ),
        0 <= ray_square(from, direction, steps) < 64,
{
    lemma_ray_geometry(from, direction, steps);
}

/// A pawn that is not on its home rank has no double push: every one of its
/// moves ends on the next rank.
pub proof fn theorem_double_push_only_from_home_rank(p: Position, m: Move)
    requires
        is_pseudo_legal(p, m),
        p.squares[m.starting_square as int] matches Some((kind, _)) && kind == Piece::Pawn,
        rank_of(m.starting_square as int) != home_rank(p.to_move),
    ensures
        rank_of(m.target_square as int) == rank_of(m.starting_square as int) + forward(p.to_move),
{
}

/// A pawn captures on a neighbouring file only, one rank ahead: the capture
/// never wraps round an edge of the board.
pub proof fn theorem_pawn_captures_next_file(p: Position, m: Move)
    requires
        is_pseudo_legal(p, m),
        p.squares[m.starting_square as int] matches Some((kind, _)) && kind == Piece::Pawn,
        p.squares[m.target_square as int] is Some,
    ensures
        distance(file_of(m.target_square as int), file_of(m.starting_square as int)) == 1,
        rank_of(m.target_square as int) == rank_of(m.starting_square as int) + forward(p.to_move),
        holds_color(p, m.target_square as int, p.to_move.opposite()),
{
}

/// A knight's move ends one file and two ranks away, or two files and one
/// rank: the jump never wraps round an edge of the board.
pub proof fn theorem_knight_moves_are_jumps(p: Position, m: Move)
    requires
        is_pseudo_legal(p, m),
        p.squares[m.starting_square as int] matches Some((kind, _)) && kind == Piece::Knight,
    ensures
        ({
            let from = m.starting_square as int;
            let to = m.target_square as int;
            let files = distance(file_of(to), file_of(from));
            let ranks = distance(rank_of(to), rank_of(from));
            (files == 1 && ranks == 2) || (files == 2 && ranks == 1)
        }),
{
    let from = m.starting_square as int;
    let k = choose|k: int| 0 <= k < 8 && #[trigger] is_knight_jump(p, from, k, m);
    assert(is_knight_jump(p, from, k, m));
}

/// Two sequences without a repeated element and without a common one join
/// to a sequence without a repeated element.
pub proof fn lemma_no_duplicates_concat<T>(a: Seq<T>, b: Seq<T>)
    requires
        a.no_duplicates(),
        b.no_duplicates(),
        forall|x: T| !(a.contains(x) && b.contains(x)),
    ensures
        (a + b).no_duplicates(),
{
    let joined = a + b;
    assert forall|i: int, j: int|
        0 <= i < joined.len() && 0 <= j < joined.len() && i != j implies joined[i] != joined[j] by {
        if i < a.len() && j < a.len() {
        } else if i >= a.len() && j >= a.len() {
            assert(joined[i] == b[i - a.len()]);
            assert(joined[j] == b[j - a.len()]);
        } else if i < a.len() {
            assert(a.contains(a[i]));
            assert(b.contains(b[j - a.len()]));
        } else {
            assert(a.contains(a[j]));
            assert(b.contains(b[i - a.len()]));
        }
    }
}

/// A sequence of at most one element has no repeated element.
pub proof fn lemma_no_duplicates_short<T>(a: Seq<T>)
    requires
        a.len() <= 1,
    ensures
        a.no_duplicates(),
{
}

/// Along one ray no move comes twice.
proof fn lemma_ray_moves_differ(p: Position, from: int, direction: int, steps: int)
    requires
        0 <= from < 64,
        0 <= direction < 8,
        0 <= steps,
        ray_clear(p, from, direction, steps + 1),
    ensures
        ray_moves(p, from, direction, steps).no_duplicates(),
    decreases squares_to_edge(from, direction) - steps,
{
    let target = ray_square(from, direction, steps + 1);
    if steps < squares_to_edge(from, direction) {
        match p.squares[target] {
            Some(_) => {
                lemma_no_duplicates_short(ray_moves(p, from, direction, steps));
            },
            None => {
                let first = seq![move_of(from, target)];
                let rest = ray_moves(p, from, direction, steps + 1);
                lemma_ray_clear_further(p, from, direction, steps + 1);
                lemma_ray_moves_differ(p, from, direction, steps + 1);
                lemma_no_duplicates_short(first);
                assert forall|x: Move| !(first.contains(x) && rest.contains(x)) by {
                    lemma_contains_one(move_of(from, target), x);
                    lemma_ray_moves(p, from, direction, steps + 1, x);
                    if first.contains(x) && rest.contains(x) {
                        let k = choose|k: int|
                            steps + 1 < k && #[trigger] slides(p, from, direction, k) && x
                                == move_of(from, ray_square(from, direction, k));
                        lemma_ray_on_board(from, direction, k);
                        lemma_ray_on_board(from, direction, steps + 1);
                        let offset = direction_offset(direction);
                        assert(offset * k != offset * (steps + 1)) by (nonlinear_arith)
                            requires
                                offset != 0,
                                k != steps + 1,
                        ;
                    }
                }
                lemma_no_duplicates_concat(first, rest);
            },
        }
    } else {
        lemma_no_duplicates_short(ray_moves(p, from, direction, steps));
    }
}

/// Slides in two different directions end on different squares.
proof fn lemma_rays_part(from: int, one: int, steps: int, other: int, other_steps: int)
    requires
        0 <= from < 64,
        0 <= one < 8,
        0 <= other < 8,
        one != other,
        1 <= steps <= squares_to_edge(from, one),
        1 <= other_steps <= squares_to_edge(from, other),
    ensures
        ray_square(from, one, steps) != ray_square(from, other, other_steps),
        0 <= ray_square(from, one, steps) < 64,
        0 <= ray_square(from, other, other_steps) < 64,
{
    lemma_ray_geometry(from, one, steps);
    lemma_ray_geometry(from, other, other_steps);
}

/// Along the rays from `first` up to `end` no move comes twice.
proof fn lemma_rays_moves_differ(p: Position, from: int, first: int, end: int)
    requires
        0 <= from < 64,
        0 <= first,
        end <= 8,
    ensures
        rays_moves(p, from, first, end).no_duplicates(),
    decreases end - first,
{
    if first < end {
        let here = ray_moves(p, from, first, 0);
        let rest = rays_moves(p, from, first + 1, end);
        lemma_ray_moves_differ(p, from, first, 0);
        lemma_rays_moves_differ(p, from, first + 1, end);
        assert forall|x: Move| !(here.contains(x) && rest.contains(x)) by {
            lemma_ray_moves(p, from, first, 0, x);
            lemma_rays_moves(p, from, first + 1, end, x);
            if here.contains(x) && rest.contains(x) {
                let k = choose|k: int|
                    0 < k && #[trigger] slides(p, from, first, k) && x == move_of(
                        from,
                        ray_square(from, first, k),
                    );
                let other = choose|direction: int|
                    first + 1 <= direction < end && #[trigger] is_slide_beyond(
                        p,
                        from,
                        direction,
                        0,
                        x,
                    );
                let other_k = choose|k: int|
                    0 < k && #[trigger] slides(p, from, other, k) && x == move_of(
                        from,
                        ray_square(from, other, k),
                    );
                lemma_rays_part(from, first, k, other, other_k);
            }
        }
        lemma_no_duplicates_concat(here, rest);
    } else {
        lemma_no_duplicates_short(rays_moves(p, from, first, end));
    }
}

/// Among the knight moves by the jumps from the `first` on no move comes
/// twice.
proof fn lemma_knight_moves_differ(p: Position, from: int, first: int)
    requires
        0 <= from < 64,
        0 <= first,
    ensures
        knight_moves_from(p, from, first).no_duplicates(),
    decreases 8 - first,
{
    if first < 8 {
        let target = from + knight_offset(first);
        let this = if knight_lands(from, target) && !holds_color(p, target, p.to_move) {
            seq![move_of(from, target)]
        } else {
            Seq::empty()
        };
        let rest = knight_moves_from(p, from, first + 1);
        lemma_knight_moves_differ(p, from, first + 1);
        lemma_no_duplicates_short(this);
        assert forall|x: Move| !(this.contains(x) && rest.contains(x)) by {
            lemma_contains_one(move_of(from, target), x);
            lemma_contains_none(x);
            lemma_knight_moves_from(p, from, first + 1, x);
            lemma_knight_geometry(from, first);
            if this.contains(x) && rest.contains(x) {
                let k = choose|k: int|
                    first + 1 <= k < 8 && #[trigger] is_knight_jump(p, from, k, x);
                assert(is_knight_jump(p, from, k, x));
            }
        }
        lemma_no_duplicates_concat(this, rest);
    } else {
        lemma_no_duplicates_short(knight_moves_from(p, from, first));
    }
}

/// Among the moves of a pawn no move comes twice.
proof fn lemma_pawn_moves_differ(p: Position, from: int)
    requires
        0 <= from < 64,
    ensures
        pawn_moves(p, from).no_duplicates(),
{
    let ahead = forward(p.to_move);
    let push = pawn_push(p, from);
    let first = pawn_capture(p, from, from + 7 * ahead);
    let second = pawn_capture(p, from, from + 9 * ahead);
    let double = pawn_double_push(p, from);
    lemma_no_duplicates_short(push);
    lemma_no_duplicates_short(first);
    lemma_no_duplicates_short(second);
    lemma_no_duplicates_short(double);
    assert forall|x: Move| !(push.contains(x) && first.contains(x)) by {
        lemma_contains_none(x);
        lemma_contains_one(move_of(from, from + 8 * ahead), x);
        lemma_contains_one(move_of(from, from + 7 * ahead), x);
    }
    lemma_no_duplicates_concat(push, first);
    assert forall|x: Move| !((push + first).contains(x) && second.contains(x)) by {
        lemma_contains_none(x);
        lemma_contains_concat(push, first, x);
        lemma_contains_one(move_of(from, from + 8 * ahead), x);
        lemma_contains_one(move_of(from, from + 7 * ahead), x);
        lemma_contains_one(move_of(from, from + 9 * ahead), x);
    }
    lemma_no_duplicates_concat(push + first, second);
    assert forall|x: Move| !((push + first + second).contains(x) && double.contains(x)) by {
        lemma_contains_none(x);
        lemma_contains_concat(push + first, second, x);
        lemma_contains_concat(push, first, x);
        lemma_contains_one(move_of(from, from + 8 * ahead), x);
        lemma_contains_one(move_of(from, from + 7 * ahead), x);
        lemma_contains_one(move_of(from, from + 9 * ahead), x);
        lemma_contains_one(move_of(from, from + 16 * ahead), x);
    }
    lemma_no_duplicates_concat(push + first + second, double);
}

/// Among the moves from the squares from `first` on no move comes twice.
proof fn lemma_moves_from_differ(p: Position, first: int)
    requires
        0 <= first,
    ensures
        moves_from(p, first).no_duplicates(),
    decreases 64 - first,
{
    if first < 64 {
        let here = piece_moves(p, first);
        let rest = moves_from(p, first + 1);
        lemma_moves_from_differ(p, first + 1);
        lemma_no_duplicates_short(Seq::<Move>::empty());
        match p.squares[first] {
            Some((kind, _)) => {
                lemma_rays_moves_differ(p, first, first_direction(kind), end_direction(kind));
                lemma_knight_moves_differ(p, first, 0);
                lemma_pawn_moves_differ(p, first);
            },
            None => {},
        }
        assert forall|x: Move| !(here.contains(x) && rest.contains(x)) by {
            lemma_piece_moves(p, first, x);
            lemma_moves_from(p, first + 1, x);
        }
        lemma_no_duplicates_concat(here, rest);
    } else {
        lemma_no_duplicates_short(moves_from(p, first));
    }
}

/// No move is generated twice.
pub proof fn theorem_no_move_twice(p: Position)
    ensures
        pseudo_legal_moves(p).no_duplicates(),
{
    lemma_moves_from_differ(p, 0);
}

} // verus!
