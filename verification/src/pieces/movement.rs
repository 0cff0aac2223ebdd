//! Straight and diagonal moves: their shape, what stands in their way, and
//! the rays and offsets from which the squares of a piece are listed.
use crate::piece_types::QuickPiece;
use crate::pieces::{delta, distance, grid_view, is_chess_board, on_board, Grid};
use vstd::prelude::*;

verus! {

/// The coordinate reached after `k` steps from `from` in the direction of
/// `to`; it stays at `from` where the two are equal.
pub open spec fn stepped(from: int, to: int, k: int) -> int {
    if to > from {
        from + k
    } else if to < from {
        from - k
    } else {
        from
    }
}

/// The number of steps of a straight or diagonal move.
pub open spec fn span(x_start: int, y_start: int, x_end: int, y_end: int) -> int {
    if distance(x_start, x_end) >= distance(y_start, y_end) {
        distance(x_start, x_end)
    } else {
        distance(y_start, y_end)
    }
}

/// Whether a piece stands on the `k`-th square of the way from start to end.
pub open spec fn way_occupied(
    grid: Grid,
    x_start: int,
    y_start: int,
    x_end: int,
    y_end: int,
    k: int,
) -> bool {
    grid[stepped(x_start, x_end, k)][stepped(y_start, y_end, k)].occupied()
}

/// Whether a piece stands strictly between the two ends of a straight or
/// diagonal move.
pub open spec fn path_blocked(grid: Grid, x_start: int, y_start: int, x_end: int, y_end: int) -> bool {
    exists|k: int|
        0 < k < span(x_start, y_start, x_end, y_end) && #[trigger] way_occupied(
            grid,
            x_start,
            y_start,
            x_end,
            y_end,
            k,
        )
}

/// A move along a diagonal, by at least one square.
pub open spec fn diagonal(x_start: int, y_start: int, x_end: int, y_end: int) -> bool {
    distance(x_start, x_end) != 0 && distance(x_start, x_end) == distance(y_start, y_end)
}

/// A move that stays on its file or on its rank.
pub open spec fn straight(x_start: int, y_start: int, x_end: int, y_end: int) -> bool {
    distance(x_start, x_end) == 0 || distance(y_start, y_end) == 0
}

/// Whether a piece of either side stands on the given square.
fn occupied_at(x_coord: usize, y_coord: usize, quick_board: &[Vec<QuickPiece>]) -> (found: bool)
    requires
        is_chess_board(quick_board@),
        on_board(x_coord as int, y_coord as int),
    ensures
        found == grid_view(quick_board@)[x_coord as int][y_coord as int].occupied(),
{
    match quick_board[x_coord][y_coord] {
        QuickPiece::PIECE(_) => true,
        QuickPiece::KING(_) => true,
        QuickPiece::EMPTY => false,
    }
}

/// Whether a piece stands strictly between the ends of a diagonal move.
pub fn check_if_pieces_in_path_diag(
    x_start: usize,
    y_start: usize,
    x_dest: usize,
    y_dest: usize,
    quick_board: &[Vec<QuickPiece>],
) -> (blocked: bool)
    requires
        is_chess_board(quick_board@),
        on_board(x_start as int, y_start as int),
        on_board(x_dest as int, y_dest as int),
        distance(x_start as int, x_dest as int) == distance(y_start as int, y_dest as int),
    ensures
        blocked == path_blocked(
            grid_view(quick_board@),
            x_start as int,
            y_start as int,
            x_dest as int,
            y_dest as int,
        ),
{
    let steps = delta(x_start, x_dest);
    let ghost grid = grid_view(quick_board@);
    let mut index: usize = 1;
    while index < steps
        invariant
            1 <= index,
            steps == distance(x_start as int, x_dest as int),
            steps == distance(y_start as int, y_dest as int),
            steps == span(x_start as int, y_start as int, x_dest as int, y_dest as int),
            grid == grid_view(quick_board@),
            is_chess_board(quick_board@),
            on_board(x_start as int, y_start as int),
            on_board(x_dest as int, y_dest as int),
            forall|k: int|
                0 < k < index ==> !#[trigger] way_occupied(
                    grid,
                    x_start as int,
                    y_start as int,
                    x_dest as int,
                    y_dest as int,
                    k,
                ),
        decreases steps - index,
    {
        let x = if x_dest < x_start {
            x_start - index
        } else {
            x_start + index
        };
        let y = if y_dest < y_start {
            y_start - index
        } else {
            y_start + index
        };
        if occupied_at(x, y, quick_board) {
            assert(way_occupied(
                grid,
                x_start as int,
                y_start as int,
                x_dest as int,
                y_dest as int,
                index as int,
            ));
            return true;
        }
        index = index + 1;
    }
    false
}

/// Whether the move goes along a diagonal, by at least one square.
pub fn is_move_diagonal(
    x_start: usize,
    y_start: usize,
    x_coord: usize,
    y_coord: usize,
    _quick_board: &[Vec<QuickPiece>],
) -> (diag: bool)
    ensures
        diag == diagonal(x_start as int, y_start as int, x_coord as int, y_coord as int),
{
    let x_delta = delta(x_coord, x_start);
    let y_delta = delta(y_coord, y_start);
    if x_delta == 0 {
        return false;
    }
    x_delta == y_delta
}

/// Whether the move stays on its file or on its rank; a move that goes
/// nowhere does both.
pub fn is_move_horizontal_vertical(
    x_start: usize,
    y_start: usize,
    x_coord: usize,
    y_coord: usize,
    _quick_board: &[Vec<QuickPiece>],
) -> (aligned: bool)
    ensures
        aligned == straight(x_start as int, y_start as int, x_coord as int, y_coord as int),
{
    let x_delta = delta(x_coord, x_start);
    let y_delta = delta(y_coord, y_start);
    x_delta == 0 || y_delta == 0
}

/// Whether a piece stands strictly between the ends of a move along a file
/// or a rank. Of a move that is neither, nothing is in the way.
pub fn check_if_pieces_in_path_horizontal_vertical(
    x_start: usize,
    y_start: usize,
    x_coord: usize,
    y_coord: usize,
    quick_board: &[Vec<QuickPiece>],
) -> (blocked: bool)
    requires
        is_chess_board(quick_board@),
        on_board(x_start as int, y_start as int),
        on_board(x_coord as int, y_coord as int),
    ensures
        blocked == (straight(x_start as int, y_start as int, x_coord as int, y_coord as int)
            && path_blocked(
            grid_view(quick_board@),
            x_start as int,
            y_start as int,
            x_coord as int,
            y_coord as int,
        )),
{
    let ghost grid = grid_view(quick_board@);
    if x_coord == x_start {
        let steps = delta(y_coord, y_start);
        let mut index: usize = 1;
        while index < steps
            invariant
                1 <= index,
                x_coord == x_start,
                steps == distance(y_start as int, y_coord as int),
                steps == span(x_start as int, y_start as int, x_coord as int, y_coord as int),
                grid == grid_view(quick_board@),
                is_chess_board(quick_board@),
                on_board(x_start as int, y_start as int),
                on_board(x_coord as int, y_coord as int),
                forall|k: int|
                    0 < k < index ==> !#[trigger] way_occupied(
                        grid,
                        x_start as int,
                        y_start as int,
                        x_coord as int,
                        y_coord as int,
                        k,
                    ),
            decreases steps - index,
        {
            let y = if y_coord < y_start {
                y_start - index
            } else {
                y_start + index
            };
            if occupied_at(x_coord, y, quick_board) {
                assert(way_occupied(
                    grid,
                    x_start as int,
                    y_start as int,
                    x_coord as int,
                    y_coord as int,
                    index as int,
                ));
                return true;
            }
            index = index + 1;
        }
    } else if y_coord == y_start {
        let steps = delta(x_coord, x_start);
        let mut index: usize = 1;
        while index < steps
            invariant
                1 <= index,
                y_coord == y_start,
                steps == distance(x_start as int, x_coord as int),
                steps == span(x_start as int, y_start as int, x_coord as int, y_coord as int),
                grid == grid_view(quick_board@),
                is_chess_board(quick_board@),
                on_board(x_start as int, y_start as int),
                on_board(x_coord as int, y_coord as int),
                forall|k: int|
                    0 < k < index ==> !#[trigger] way_occupied(
                        grid,
                        x_start as int,
                        y_start as int,
                        x_coord as int,
                        y_coord as int,
                        k,
                    ),
            decreases steps - index,
        {
            let x = if x_coord < x_start {
                x_start - index
            } else {
                x_start + index
            };
            if occupied_at(x, y_coord, quick_board) {
                assert(way_occupied(
                    grid,
                    x_start as int,
                    y_start as int,
                    x_coord as int,
                    y_coord as int,
                    index as int,
                ));
                return true;
            }
            index = index + 1;
        }
    }
    false
}

/// How many squares of the board lie beyond `from` in direction `step`
/// along one axis; eight where the axis is not walked.
pub open spec fn room(from: int, step: int) -> int {
    if step > 0 {
        7 - from
    } else if step < 0 {
        from
    } else {
        8
    }
}

/// How many squares of the board a ray from file `x`, rank `y` crosses
/// before it leaves the board.
pub open spec fn ray_len(x: int, y: int, x_step: int, y_step: int) -> int {
    if !on_board(x, y) {
        0
    } else if room(x, x_step) <= room(y, y_step) {
        room(x, x_step)
    } else {
        room(y, y_step)
    }
}

/// The squares of a ray from file `x`, rank `y`, nearest first. Each step
/// is -1, 0 or 1, and not both are 0.
pub open spec fn ray(x: int, y: int, x_step: int, y_step: int) -> Seq<(usize, usize)> {
    Seq::new(
        ray_len(x, y, x_step, y_step) as nat,
        |k: int| ((x + (k + 1) * x_step) as usize, (y + (k + 1) * y_step) as usize),
    )
}

/// One step along an axis, if it stays on the board.
fn advance(from: usize, step: i8) -> (next: Option<usize>)
    requires
        from < 8,
        -1 <= step <= 1,
    ensures
        next is Some <==> room(from as int, step as int) >= 1,
        next matches Some(n) ==> n == from + step && n < 8,
{
    if step > 0 {
        if from < 7 {
            Some(from + 1)
        } else {
            None
        }
    } else if step < 0 {
        if from > 0 {
            Some(from - 1)
        } else {
            None
        }
    } else {
        Some(from)
    }
}

/// Appends to `moves` the squares of the ray from the given square.
pub fn push_ray(moves: &mut Vec<(usize, usize)>, x: usize, y: usize, x_step: i8, y_step: i8)
    requires
        -1 <= x_step <= 1,
        -1 <= y_step <= 1,
        x_step != 0 || y_step != 0,
    ensures
        final(moves)@ == old(moves)@ + ray(x as int, y as int, x_step as int, y_step as int),
{
    let ghost before = moves@;
    let ghost whole = ray(x as int, y as int, x_step as int, y_step as int);
    if x >= 8 || y >= 8 {
        assert(whole =~= Seq::empty());
        assert(moves@ =~= before + whole);
        return ;
    }
    let mut cx: usize = x;
    let mut cy: usize = y;
    let mut count: usize = 0;
    loop
        invariant
            -1 <= x_step <= 1,
            -1 <= y_step <= 1,
            x_step != 0 || y_step != 0,
            x < 8 && y < 8,
            cx < 8 && cy < 8,
            count <= 8,
            cx == x + count * x_step,
            cy == y + count * y_step,
            count <= ray_len(x as int, y as int, x_step as int, y_step as int),
            whole == ray(x as int, y as int, x_step as int, y_step as int),
            moves@ =~= before + whole.subrange(0, count as int),
        ensures
            moves@ =~= before + whole,
        decreases 8 - count,
    {
        let nx = advance(cx, x_step);
        let ny = advance(cy, y_step);
        match (nx, ny) {
            (Some(next_x), Some(next_y)) => {
                assert(count < ray_len(x as int, y as int, x_step as int, y_step as int)) by {
                    assert(count * x_step == if x_step > 0 {
                        count as int
                    } else if x_step < 0 {
                        -(count as int)
                    } else {
                        0
                    }) by (nonlinear_arith)
                        requires
                            -1 <= x_step <= 1,
                    ;
                    assert(count * y_step == if y_step > 0 {
                        count as int
                    } else if y_step < 0 {
                        -(count as int)
                    } else {
                        0
                    }) by (nonlinear_arith)
                        requires
                            -1 <= y_step <= 1,
                    ;
                }
                assert((count + 1) * x_step == count * x_step + x_step) by (nonlinear_arith);
                assert((count + 1) * y_step == count * y_step + y_step) by (nonlinear_arith);
                moves.push((next_x, next_y));
                assert(whole[count as int] == (next_x, next_y));
                assert(whole.subrange(0, count as int + 1) =~= whole.subrange(0, count as int).push(
                    whole[count as int],
                ));
                cx = next_x;
                cy = next_y;
                count = count + 1;
            },
            _ => {
                assert(count == ray_len(x as int, y as int, x_step as int, y_step as int)) by {
                    assert(count * x_step == if x_step > 0 {
                        count as int
                    } else if x_step < 0 {
                        -(count as int)
                    } else {
                        0
                    }) by (nonlinear_arith)
                        requires
                            -1 <= x_step <= 1,
                    ;
                    assert(count * y_step == if y_step > 0 {
                        count as int
                    } else if y_step < 0 {
                        -(count as int)
                    } else {
                        0
                    }) by (nonlinear_arith)
                        requires
                            -1 <= y_step <= 1,
                    ;
                }
                assert(whole.subrange(0, count as int) =~= whole);
                break ;
            },
        }
    }
}

/// The sequence `squares`, with the square at the given offset from file
/// `x`, rank `y` added where both squares are on the board.
pub open spec fn with_offset(
    squares: Seq<(usize, usize)>,
    x: int,
    y: int,
    x_offset: int,
    y_offset: int,
) -> Seq<(usize, usize)> {
    if on_board(x, y) && on_board(x + x_offset, y + y_offset) {
        squares.push(((x + x_offset) as usize, (y + y_offset) as usize))
    } else {
        squares
    }
}

/// The coordinate at a small offset from `from`, if it is on the board.
fn shift(from: usize, offset: i8) -> (shifted: Option<usize>)
    requires
        -2 <= offset <= 2,
    ensures
        shifted is Some <==> 0 <= from + offset < 8,
        shifted matches Some(n) ==> n == from + offset,
{
    if offset >= 0 {
        let up: usize = offset as usize;
        if from < 8 && from + up < 8 {
            Some(from + up)
        } else {
            None
        }
    } else {
        let down: usize = if offset == -1 {
            1
        } else {
            2
        };
        if from >= down && from - down < 8 {
            Some(from - down)
        } else {
            None
        }
    }
}

/// Appends to `moves` the square at the given offset, where it is on the
/// board.
pub fn push_offset(moves: &mut Vec<(usize, usize)>, x: usize, y: usize, x_offset: i8, y_offset: i8)
    requires
        -2 <= x_offset <= 2,
        -2 <= y_offset <= 2,
    ensures
        final(moves)@ == with_offset(
            old(moves)@,
            x as int,
            y as int,
            x_offset as int,
            y_offset as int,
        ),
{
    if x >= 8 || y >= 8 {
        return ;
    }
    match (shift(x, x_offset), shift(y, y_offset)) {
        (Some(next_x), Some(next_y)) => {
            moves.push((next_x, next_y));
        },
        _ => {},
    }
}

} // verus!
