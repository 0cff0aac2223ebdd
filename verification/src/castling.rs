//! Proofs about the two halves of castling.
use crate::agreement::{
    lemma_applied_consistent, lemma_backed_piece, lemma_grid_with_shape, lemma_replace_consistent,
    lemma_shown_holds,
};
use crate::piece_types::{PieceColor, QuickPiece};
use crate::pieces::grid_with;
use crate::position::{find_at, lemma_find_at_none, BoardView};
use crate::rules::{lemma_touched, rook_file, rook_landing, touched};
use vstd::prelude::*;

verus! {

/// The position after the king's half of castling.
pub open spec fn king_castled(b: BoardView, color: PieceColor, king_x_end: int) -> BoardView {
    let rank = b.king_square(color).1 as int;
    b.applied(4, rank, king_x_end, rank, color)
}

/// The position after the king's and the rook's half of castling.
pub open spec fn rook_castled(b: BoardView, color: PieceColor, king_x_end: int) -> BoardView {
    let rank = b.king_square(color).1 as int;
    king_castled(b, color, king_x_end).applied(
        rook_file(king_x_end),
        rank,
        rook_landing(king_x_end),
        rank,
        color,
    )
}

/// The king's half of castling keeps the grid and the lists in agreement,
/// and leaves the rook where it was, beside an empty square.
pub proof fn lemma_king_castled(b: BoardView, color: PieceColor, king_x_end: int)
    requires
        b.consistent(),
        b.castle_pieces_ready(color, king_x_end),
        b.castle_path_clear(color, king_x_end),
    ensures
        king_castled(b, color, king_x_end).consistent(),
        king_castled(b, color, king_x_end).has_piece(
            color,
            rook_file(king_x_end),
            b.king_square(color).1 as int,
        ),
        !king_castled(b, color, king_x_end).grid[rook_landing(king_x_end)][b.king_square(
            color,
        ).1 as int].occupied(),
        king_castled(b, color, king_x_end).pieces(color).len() == b.pieces(color).len(),
        king_castled(b, color, king_x_end).king_square(color).1 == b.king_square(color).1,
{
    crate::agreement::lemma_consistent_shaped(b);
    let rank = b.king_square(color).1 as int;
    let after = king_castled(b, color, king_x_end);
    let rook_x = rook_file(king_x_end);
    let landing = rook_landing(king_x_end);
    lemma_applied_consistent(b, color, 4, rank, king_x_end, rank);
    let lifted = grid_with(b.grid, 4, rank, QuickPiece::EMPTY);
    lemma_grid_with_shape(b.grid, 4, rank, QuickPiece::EMPTY);
    lemma_grid_with_shape(lifted, king_x_end, rank, b.grid[4][rank]);
    assert(after.grid == grid_with(lifted, king_x_end, rank, b.grid[4][rank]));
    assert(after.grid[rook_x][rank] == b.grid[rook_x][rank]) by {
        assert(lifted[rook_x][rank] == b.grid[rook_x][rank]);
    }
    assert(after.grid[landing][rank] == b.grid[landing][rank]) by {
        assert(lifted[landing][rank] == b.grid[landing][rank]);
    }
    lemma_backed_piece(b, color, rook_x, rank);
    lemma_backed_piece(after, color, rook_x, rank);
}

/// Castling keeps the grid and the lists in agreement.
pub proof fn lemma_castled_consistent(b: BoardView, color: PieceColor, king_x_end: int)
    requires
        b.consistent(),
        b.castle_pieces_ready(color, king_x_end),
        b.castle_path_clear(color, king_x_end),
    ensures
        rook_castled(b, color, king_x_end).consistent(),
        rook_castled(b, color, king_x_end).pieces(color).len() == b.pieces(color).len(),
        b.castled(color, king_x_end).consistent(),
        b.castled(color, king_x_end).grid == rook_castled(b, color, king_x_end).grid,
        b.castled(color, king_x_end).pieces(color.opposite()) == rook_castled(
            b,
            color,
            king_x_end,
        ).pieces(color.opposite()),
        b.castled(color, king_x_end).king_square(color) == rook_castled(
            b,
            color,
            king_x_end,
        ).king_square(color),
{
    let rank = b.king_square(color).1 as int;
    let with_king = king_castled(b, color, king_x_end);
    let with_rook = rook_castled(b, color, king_x_end);
    lemma_king_castled(b, color, king_x_end);
    lemma_applied_consistent(
        with_king,
        color,
        rook_file(king_x_end),
        rank,
        rook_landing(king_x_end),
        rank,
    );
    lemma_find_at_none(b.pieces(color), 4, rank);
    lemma_find_at_none(b.pieces(color), rook_file(king_x_end), rank);
    let i = find_at(b.pieces(color), 4, rank)->0;
    let j = find_at(b.pieces(color), rook_file(king_x_end), rank)->0;
    assert(with_rook.pieces(color).len() == b.pieces(color).len());
    lemma_shown_holds(with_rook, color, i);
    lemma_touched(with_rook.pieces(color)[i]);
    lemma_replace_consistent(with_rook, color, i, touched(with_rook.pieces(color)[i]));
    let king_done = with_rook.with_piece(color, i, touched(with_rook.pieces(color)[i]));
    lemma_shown_holds(king_done, color, j);
    lemma_touched(king_done.pieces(color)[j]);
    lemma_replace_consistent(king_done, color, j, touched(king_done.pieces(color)[j]));
}

} // verus!
