//! Proofs that the squares listed for a piece hold every square that it can
//! move to.

use crate::pieces::movement::{diagonal, ray, ray_len, straight, with_offset};
use crate::pieces::{distance, on_board, AnyPiece, Grid, PieceMove};
use crate::position::pawn_from_pawn_rank;
use vstd::prelude::*;

verus! {

/// What is among the squares of one of two lists is among those of both.
pub proof fn lemma_contains_either(
    a: Seq<(usize, usize)>,
    b: Seq<(usize, usize)>,
    square: (usize, usize),
)
    requires
        a.contains(square) || b.contains(square),
    ensures
        (a + b).contains(square),
{
    if a.contains(square) {
        let i = choose|i: int| 0 <= i < a.len() && a[i] == square;
        assert((a + b)[i] == square);
    } else {
        let i = choose|i: int| 0 <= i < b.len() && b[i] == square;
        assert((a + b)[a.len() + i] == square);
    }
}

/// A ray holds the square that lies `k` steps along it, while that is on
/// the board.
pub proof fn lemma_ray_holds(x: int, y: int, x_step: int, y_step: int, k: int)
    requires
        on_board(x, y),
        -1 <= x_step <= 1,
        -1 <= y_step <= 1,
        1 <= k,
        on_board(x + k * x_step, y + k * y_step),
        x_step != 0 || y_step != 0,
    ensures
        ray(x, y, x_step, y_step).contains(((x + k * x_step) as usize, (y + k * y_step) as usize)),
{
    assert(k * x_step == if x_step > 0 {
        k
    } else if x_step < 0 {
        -k
    } else {
        0
    }) by (nonlinear_arith)
        requires
            -1 <= x_step <= 1,
    ;
    assert(k * y_step == if y_step > 0 {
        k
    } else if y_step < 0 {
        -k
    } else {
        0
    }) by (nonlinear_arith)
        requires
            -1 <= y_step <= 1,
    ;
    assert(k <= ray_len(x, y, x_step, y_step));
    assert(ray(x, y, x_step, y_step)[k - 1] == ((x + k * x_step) as usize, (y + k * y_step) as usize));
}

/// The direction from one coordinate to another.
pub open spec fn toward(from: int, to: int) -> int {
    if to > from {
        1
    } else if to < from {
        -1
    } else {
        0
    }
}

/// The ray toward a square on the same diagonal, file or rank holds it.
pub proof fn lemma_ray_toward(x: int, y: int, x_end: int, y_end: int)
    requires
        on_board(x, y),
        on_board(x_end, y_end),
        !(x == x_end && y == y_end),
        diagonal(x, y, x_end, y_end) || straight(x, y, x_end, y_end),
    ensures
        ray(x, y, toward(x, x_end), toward(y, y_end)).contains((x_end as usize, y_end as usize)),
{
    let k = if distance(x, x_end) >= distance(y, y_end) {
        distance(x, x_end)
    } else {
        distance(y, y_end)
    };
    let x_step = toward(x, x_end);
    let y_step = toward(y, y_end);
    assert(k * x_step == x_end - x) by (nonlinear_arith)
        requires
            x_step == toward(x, x_end),
            x_end != x ==> k == distance(x, x_end),
    ;
    assert(k * y_step == y_end - y) by (nonlinear_arith)
        requires
            y_step == toward(y, y_end),
            y_end != y ==> k == distance(y, y_end),
    ;
    lemma_ray_holds(x, y, x_step, y_step, k);
}

/// A list with a square added at an offset holds that square where it is
/// on the board, and whatever the list held before.
pub proof fn lemma_with_offset(
    squares: Seq<(usize, usize)>,
    x: int,
    y: int,
    x_offset: int,
    y_offset: int,
    square: (usize, usize),
)
    requires
        squares.contains(square) || (on_board(x, y) && on_board(x + x_offset, y + y_offset)
            && square == ((x + x_offset) as usize, (y + y_offset) as usize)),
    ensures
        with_offset(squares, x, y, x_offset, y_offset).contains(square),
{
    let after = with_offset(squares, x, y, x_offset, y_offset);
    if squares.contains(square) {
        let i = choose|i: int| 0 <= i < squares.len() && squares[i] == square;
        assert(after[i] == square);
    } else {
        assert(after[squares.len() as int] == square);
    }
}

/// The squares that the shape of a bishop's movement allows hold every
/// square of its diagonals.
proof fn lemma_diagonal_listed(
    x: int,
    y: int,
    x_end: int,
    y_end: int,
    before: Seq<(usize, usize)>,
    after: Seq<(usize, usize)>,
)
    requires
        on_board(x, y),
        on_board(x_end, y_end),
        diagonal(x, y, x_end, y_end),
    ensures
        (before + ray(x, y, 1, 1) + ray(x, y, 1, -1) + ray(x, y, -1, -1) + ray(x, y, -1, 1)
            + after).contains((x_end as usize, y_end as usize)),
{
    let square = (x_end as usize, y_end as usize);
    lemma_ray_toward(x, y, x_end, y_end);
    let a = ray(x, y, 1, 1);
    let b = ray(x, y, 1, -1);
    let c = ray(x, y, -1, -1);
    let d = ray(x, y, -1, 1);
    if a.contains(square) {
        lemma_contains_either(before, a, square);
        lemma_contains_either(before + a, b, square);
        lemma_contains_either(before + a + b, c, square);
        lemma_contains_either(before + a + b + c, d, square);
    } else if b.contains(square) {
        lemma_contains_either(before + a, b, square);
        lemma_contains_either(before + a + b, c, square);
        lemma_contains_either(before + a + b + c, d, square);
    } else if c.contains(square) {
        lemma_contains_either(before + a + b, c, square);
        lemma_contains_either(before + a + b + c, d, square);
    } else {
        lemma_contains_either(before + a + b + c, d, square);
    }
    lemma_contains_either(before + a + b + c + d, after, square);
}

/// The squares that the shape of a rook's movement allows hold every
/// other square of its file and of its rank.
proof fn lemma_straight_listed(
    x: int,
    y: int,
    x_end: int,
    y_end: int,
    before: Seq<(usize, usize)>,
)
    requires
        on_board(x, y),
        on_board(x_end, y_end),
        straight(x, y, x_end, y_end),
        !(x == x_end && y == y_end),
    ensures
        (before + ray(x, y, 1, 0) + ray(x, y, -1, 0) + ray(x, y, 0, 1) + ray(
            x,
            y,
            0,
            -1,
        )).contains((x_end as usize, y_end as usize)),
{
    let square = (x_end as usize, y_end as usize);
    lemma_ray_toward(x, y, x_end, y_end);
    let a = ray(x, y, 1, 0);
    let b = ray(x, y, -1, 0);
    let c = ray(x, y, 0, 1);
    let d = ray(x, y, 0, -1);
    if a.contains(square) {
        lemma_contains_either(before, a, square);
        lemma_contains_either(before + a, b, square);
        lemma_contains_either(before + a + b, c, square);
        lemma_contains_either(before + a + b + c, d, square);
    } else if b.contains(square) {
        lemma_contains_either(before + a, b, square);
        lemma_contains_either(before + a + b, c, square);
        lemma_contains_either(before + a + b + c, d, square);
    } else if c.contains(square) {
        lemma_contains_either(before + a + b, c, square);
        lemma_contains_either(before + a + b + c, d, square);
    } else {
        lemma_contains_either(before + a + b + c, d, square);
    }
}

/// The squares that the shape of a piece's movement allows are an upper
/// bound of its moves: whatever square a piece can move to on some grid is
/// among them. Of a pawn this holds if it started from the pawn rank of
/// its side.
pub proof fn lemma_reaches_listed(piece: AnyPiece, x: int, y: int, grid: Grid)
    requires
        piece.reaches(x, y, grid),
        pawn_from_pawn_rank(piece),
    ensures
        piece.reachable().contains((x as usize, y as usize)),
{
    let square = (x as usize, y as usize);
    let px = piece.square().0 as int;
    let py = piece.square().1 as int;
    match piece {
        AnyPiece::Bishop(_) => {
            lemma_diagonal_listed(px, py, x, y, Seq::empty(), Seq::empty());
            assert(Seq::<(usize, usize)>::empty() + ray(px, py, 1, 1) + ray(px, py, 1, -1) + ray(
                px,
                py,
                -1,
                -1,
            ) + ray(px, py, -1, 1) + Seq::<(usize, usize)>::empty() =~= piece.reachable());
        },
        AnyPiece::Rook(_) => {
            lemma_straight_listed(px, py, x, y, Seq::empty());
            assert(Seq::<(usize, usize)>::empty() + ray(px, py, 1, 0) + ray(px, py, -1, 0) + ray(
                px,
                py,
                0,
                1,
            ) + ray(px, py, 0, -1) =~= piece.reachable());
        },
        AnyPiece::Queen(_) => {
            let diagonals = ray(px, py, 1, 1) + ray(px, py, 1, -1) + ray(px, py, -1, -1) + ray(
                px,
                py,
                -1,
                1,
            );
            let straights = ray(px, py, 1, 0) + ray(px, py, -1, 0) + ray(px, py, 0, 1) + ray(
                px,
                py,
                0,
                -1,
            );
            if diagonal(px, py, x, y) {
                lemma_diagonal_listed(px, py, x, y, Seq::empty(), straights);
                assert(Seq::<(usize, usize)>::empty() + ray(px, py, 1, 1) + ray(px, py, 1, -1)
                    + ray(px, py, -1, -1) + ray(px, py, -1, 1) + straights =~= piece.reachable());
            } else {
                lemma_straight_listed(px, py, x, y, diagonals);
                assert(diagonals + ray(px, py, 1, 0) + ray(px, py, -1, 0) + ray(px, py, 0, 1)
                    + ray(px, py, 0, -1) =~= piece.reachable());
            }
        },
        AnyPiece::King(_) => {
            let s0 = with_offset(Seq::empty(), px, py, -1, 1);
            let s1 = with_offset(s0, px, py, 0, 1);
            let s2 = with_offset(s1, px, py, 1, 1);
            let s3 = with_offset(s2, px, py, -1, 0);
            let s4 = with_offset(s3, px, py, 1, 0);
            let s5 = with_offset(s4, px, py, -1, -1);
            let s6 = with_offset(s5, px, py, 0, -1);
            let dx = x - px;
            let dy = y - py;
            if dx == -1 && dy == 1 {
                lemma_with_offset(Seq::empty(), px, py, -1, 1, square);
            }
            if s0.contains(square) || (dx == 0 && dy == 1) {
                lemma_with_offset(s0, px, py, 0, 1, square);
            }
            if s1.contains(square) || (dx == 1 && dy == 1) {
                lemma_with_offset(s1, px, py, 1, 1, square);
            }
            if s2.contains(square) || (dx == -1 && dy == 0) {
                lemma_with_offset(s2, px, py, -1, 0, square);
            }
            if s3.contains(square) || (dx == 1 && dy == 0) {
                lemma_with_offset(s3, px, py, 1, 0, square);
            }
            if s4.contains(square) || (dx == -1 && dy == -1) {
                lemma_with_offset(s4, px, py, -1, -1, square);
            }
            if s5.contains(square) || (dx == 0 && dy == -1) {
                lemma_with_offset(s5, px, py, 0, -1, square);
            }
            lemma_with_offset(s6, px, py, 1, -1, square);
        },
        AnyPiece::Knight(_) => {
            let s0 = with_offset(Seq::empty(), px, py, 1, 2);
            let s1 = with_offset(s0, px, py, 2, 1);
            let s2 = with_offset(s1, px, py, 2, -1);
            let s3 = with_offset(s2, px, py, 1, -2);
            let s4 = with_offset(s3, px, py, -1, -2);
            let s5 = with_offset(s4, px, py, -2, -1);
            let s6 = with_offset(s5, px, py, -2, 1);
            let dx = x - px;
            let dy = y - py;
            if dx == 1 && dy == 2 {
                lemma_with_offset(Seq::empty(), px, py, 1, 2, square);
            }
            if s0.contains(square) || (dx == 2 && dy == 1) {
                lemma_with_offset(s0, px, py, 2, 1, square);
            }
            if s1.contains(square) || (dx == 2 && dy == -1) {
                lemma_with_offset(s1, px, py, 2, -1, square);
            }
            if s2.contains(square) || (dx == 1 && dy == -2) {
                lemma_with_offset(s2, px, py, 1, -2, square);
            }
            if s3.contains(square) || (dx == -1 && dy == -2) {
                lemma_with_offset(s3, px, py, -1, -2, square);
            }
            if s4.contains(square) || (dx == -2 && dy == -1) {
                lemma_with_offset(s4, px, py, -2, -1, square);
            }
            if s5.contains(square) || (dx == -2 && dy == 1) {
                lemma_with_offset(s5, px, py, -2, 1, square);
            }
            lemma_with_offset(s6, px, py, -1, 2, square);
        },
        AnyPiece::Pawn(pawn) => {
            lemma_pawn_step_listed(piece, x, y);
        },
    }
}

/// The squares that the shape of a pawn's movement allows hold the step
/// ahead, the two diagonal steps ahead, and the double step of a pawn that
/// stands on the pawn rank of its side.
pub proof fn lemma_pawn_step_listed(piece: AnyPiece, x: int, y: int)
    requires
        piece is Pawn,
        piece.placed(),
        on_board(x, y),
        ({
            let pawn = piece->Pawn_0;
            let f = pawn.piece_color.forward();
            ||| distance(x, pawn.pos_x as int) <= 1 && y == pawn.pos_y + f
            ||| x == pawn.pos_x && y == pawn.pos_y + 2 * f && pawn.pos_y
                == pawn.piece_color.pawn_rank()
        }),
    ensures
        piece.reachable().contains((x as usize, y as usize)),
{
    let pawn = piece->Pawn_0;
    let square = (x as usize, y as usize);
    let px = pawn.pos_x as int;
    let py = pawn.pos_y as int;
    let f = pawn.piece_color.forward();
    let s0 = with_offset(Seq::empty(), px, py, 0, f);
    let s1 = with_offset(s0, px, py, -1, f);
    let s2 = with_offset(s1, px, py, 1, f);
    let dx = x - px;
    if dx == 0 && y == py + f {
        lemma_with_offset(Seq::empty(), px, py, 0, f, square);
    }
    if s0.contains(square) || (dx == -1 && y == py + f) {
        lemma_with_offset(s0, px, py, -1, f, square);
    }
    if s1.contains(square) || (dx == 1 && y == py + f) {
        lemma_with_offset(s1, px, py, 1, f, square);
    }
    if !pawn.left_pawn_rank() {
        lemma_with_offset(s2, px, py, 0, 2 * f, square);
    }
}

} // verus!
