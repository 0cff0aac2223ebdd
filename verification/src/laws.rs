//! What holds of every position: a search for a move misses none, a mated or
//! stalemated side has no legal move, castling leaves the king safe, and the
//! fingerprint of a position does not depend on the order of its lists.
use crate::agreement::{lemma_consistent_shaped, lemma_grid_with_shape, lemma_shown_holds};
use crate::castling::{king_castled, lemma_castled_consistent, lemma_king_castled, rook_castled};
use crate::piece_types::{PieceColor, QuickPiece};
use crate::pieces::movement::{path_blocked, span, stepped, way_occupied};
use crate::pieces::{grid_with, is_chess_grid, on_board, AnyPiece, Grid, PieceMove};
use crate::position::{
    attacked, distinct_squares, find_at, lemma_find_at_none, placement, BoardView,
};
use crate::reach::{lemma_pawn_step_listed, lemma_reaches_listed};
use crate::rules::{rook_file, rook_landing};
use vstd::prelude::*;

verus! {

impl BoardView {
    /// Whether `color` has a legal move at all: a piece that may move to
    /// some square of the board, or a castling to either side.
    pub open spec fn has_legal_move(self, color: PieceColor) -> bool {
        ||| exists|i: int, x: int, y: int| self.legal_step(color, i, x, y)
        ||| self.can_castle(color, 6)
        ||| self.can_castle(color, 2)
    }
}

/// The search for a move misses none: looking at the squares that the
/// shape of each piece's movement allows finds a legal move just when
/// there is one on the whole board.
pub proof fn lemma_search_complete(b: BoardView, color: PieceColor)
    requires
        b.consistent(),
    ensures
        b.can_move(color) == b.has_legal_move(color),
{
    reveal(BoardView::legal_step);
    if b.can_move(color) && !b.can_castle(color, 6) && !b.can_castle(color, 2) {
        let (i, k) = choose|i: int, k: int| b.listed_step(color, i, k);
        let squares = b.pieces(color)[i].reachable();
        assert(b.legal_step(color, i, squares[k].0 as int, squares[k].1 as int));
    }
    if exists|i: int, x: int, y: int| b.legal_step(color, i, x, y) {
        let (i, x, y) = choose|i: int, x: int, y: int| b.legal_step(color, i, x, y);
        let piece = b.pieces(color)[i];
        lemma_shown_holds(b, color, i);
        if piece.reaches(x, y, b.grid) {
            lemma_reaches_listed(piece, x, y, b.grid);
        } else {
            lemma_pawn_step_listed(piece, x, y);
        }
        let square = (x as usize, y as usize);
        let k = choose|k: int| 0 <= k < piece.reachable().len() && piece.reachable()[k] == square;
        assert(b.listed_step(color, i, k));
    }
}

/// A side that is checkmated is in check and has no legal move: none of
/// its live pieces may move to any square, and its king may not castle.
pub proof fn law_checkmate_leaves_no_move(b: BoardView, color: PieceColor)
    requires
        b.consistent(),
        b.checkmated(color),
    ensures
        b.in_check(color),
        forall|i: int, x: int, y: int| !b.legal_step(color, i, x, y),
        !b.can_castle(color, 6),
        !b.can_castle(color, 2),
{
    lemma_search_complete(b, color);
}

/// A side that is stalemated is not in check and has no legal move: none
/// of its live pieces may move to any square, and its king may not castle.
pub proof fn law_stalemate_leaves_no_move(b: BoardView, color: PieceColor)
    requires
        b.consistent(),
        b.stalemated(color),
    ensures
        !b.in_check(color),
        forall|i: int, x: int, y: int| !b.legal_step(color, i, x, y),
        !b.can_castle(color, 6),
        !b.can_castle(color, 2),
{
    lemma_search_complete(b, color);
}

/// The grid after the rook's half of castling: the rook's corner is empty
/// and the square beside the king shows the rook.
pub open spec fn rook_shifted(grid: Grid, king_x_end: int, rank: int, rook: QuickPiece) -> Grid {
    grid_with(
        grid_with(grid, rook_file(king_x_end), rank, QuickPiece::EMPTY),
        rook_landing(king_x_end),
        rank,
        rook,
    )
}

/// The rook that steps over a castled king opens no line to it: a piece
/// that can move to the king's square afterwards could do so before.
pub proof fn lemma_rook_opens_no_line(
    piece: AnyPiece,
    grid: Grid,
    king_x_end: int,
    rank: int,
    rook: QuickPiece,
)
    requires
        is_chess_grid(grid),
        king_x_end == 6 || king_x_end == 2,
        0 <= rank < 8,
        rook.occupied(),
        piece.reaches(king_x_end, rank, rook_shifted(grid, king_x_end, rank, rook)),
    ensures
        piece.reaches(king_x_end, rank, grid),
{
    let corner = rook_file(king_x_end);
    let beside = rook_landing(king_x_end);
    let emptied = grid_with(grid, corner, rank, QuickPiece::EMPTY);
    let after = rook_shifted(grid, king_x_end, rank, rook);
    lemma_grid_with_shape(grid, corner, rank, QuickPiece::EMPTY);
    lemma_grid_with_shape(emptied, beside, rank, rook);
    assert forall|a: int, c: int|
        on_board(a, c) && !(c == rank && (a == corner || a == beside)) implies #[trigger] after[a][c]
        == grid[a][c] by {
        assert(emptied[a][c] == grid[a][c]);
    }
    assert(after[beside][rank].occupied());
    assert(after[king_x_end][rank] == grid[king_x_end][rank]);
    let px = piece.square().0 as int;
    let py = piece.square().1 as int;
    if path_blocked(grid, px, py, king_x_end, rank) && on_board(px, py) {
        let k = choose|k: int|
            0 < k < span(px, py, king_x_end, rank) && #[trigger] way_occupied(
                grid,
                px,
                py,
                king_x_end,
                rank,
                k,
            );
        let a = stepped(px, king_x_end, k);
        let c = stepped(py, rank, k);
        if crate::pieces::movement::diagonal(px, py, king_x_end, rank)
            || crate::pieces::movement::straight(px, py, king_x_end, rank) {
            assert(on_board(a, c));
            assert(!(a == corner && c == rank));
            assert(way_occupied(after, px, py, king_x_end, rank, k));
        }
    }
    match piece {
        AnyPiece::Pawn(pawn) => {
            let f = pawn.piece_color.forward();
            assert(after[king_x_end][py + f] == grid[king_x_end][py + f]);
        },
        _ => {},
    }
}

/// After castling the king is not attacked.
pub proof fn lemma_castled_safe(b: BoardView, color: PieceColor, king_x_end: int)
    requires
        b.consistent(),
        b.can_castle(color, king_x_end),
    ensures
        !b.castled(color, king_x_end).in_check(color),
{
    reveal(BoardView::castle_path_safe);
    let rank = b.king_square(color).1 as int;
    let other = color.opposite();
    let with_king = king_castled(b, color, king_x_end);
    let with_rook = rook_castled(b, color, king_x_end);
    let done = b.castled(color, king_x_end);
    lemma_consistent_shaped(b);
    lemma_king_castled(b, color, king_x_end);
    lemma_castled_consistent(b, color, king_x_end);
    lemma_consistent_shaped(with_king);
    let corner = rook_file(king_x_end);
    let beside = rook_landing(king_x_end);
    crate::agreement::lemma_backed_piece(with_king, color, corner, rank);
    let rook = with_king.grid[corner][rank];
    assert(rook.occupied());
    assert(with_rook.grid == rook_shifted(with_king.grid, king_x_end, rank, rook));
    assert(with_rook.pieces(other) == with_king.pieces(other));
    assert(with_king.king_square(color) == (king_x_end as usize, rank as usize));
    assert(with_rook.king_square(color) == with_king.king_square(color));
    assert(!with_king.in_check(color));
    if done.in_check(color) {
        let attackers = done.pieces(other);
        let i = choose|i: int|
            0 <= i < attackers.len() && (#[trigger] attackers[i]).reaches(
                king_x_end,
                rank,
                done.grid,
            );
        lemma_rook_opens_no_line(attackers[i], with_king.grid, king_x_end, rank, rook);
        assert(with_king.pieces(other)[i].reaches(king_x_end, rank, with_king.grid));
        assert(with_king.in_check(color));
    }
}

/// Whether two lists hold the same pieces, in whatever order.
pub open spec fn same_pieces(a: Seq<AnyPiece>, b: Seq<AnyPiece>) -> bool {
    forall|piece: AnyPiece| a.contains(piece) <==> b.contains(piece)
}

/// In lists of the same pieces on squares of their own, the same piece is
/// found on each square.
proof fn lemma_found_alike(a: Seq<AnyPiece>, b: Seq<AnyPiece>, x: int, y: int)
    requires
        distinct_squares(a),
        distinct_squares(b),
        same_pieces(a, b),
    ensures
        find_at(a, x, y) is Some <==> find_at(b, x, y) is Some,
        find_at(a, x, y) matches Some(i) ==> a[i] == b[find_at(b, x, y)->0],
{
    lemma_find_at_none(a, x, y);
    lemma_find_at_none(b, x, y);
    if find_at(a, x, y) is Some {
        let i = find_at(a, x, y)->0;
        assert(a.contains(a[i]));
        let j = choose|j: int| 0 <= j < b.len() && b[j] == a[i];
        assert(b[j].stands_on(x, y));
        let k = find_at(b, x, y)->0;
        if k < j {
            assert(b[k].square() != b[j].square());
        }
    }
    if find_at(b, x, y) is Some {
        let j = find_at(b, x, y)->0;
        assert(b.contains(b[j]));
        let i = choose|i: int| 0 <= i < a.len() && a[i] == b[j];
        assert(a[i].stands_on(x, y));
    }
}

/// The fingerprint of a position does not depend on the order of the
/// lists of live pieces: positions that hold the same white pieces and the
/// same black pieces, no two of a side on one square, have the same
/// fingerprint.
pub proof fn law_fingerprint_ignores_order(a: BoardView, b: BoardView)
    requires
        distinct_squares(a.white),
        distinct_squares(a.black),
        distinct_squares(b.white),
        distinct_squares(b.black),
        same_pieces(a.white, b.white),
        same_pieces(a.black, b.black),
    ensures
        placement(a.white, a.black) == placement(b.white, b.black),
        a.fingerprint() == b.fingerprint(),
{
    let first = placement(a.white, a.black);
    let second = placement(b.white, b.black);
    assert forall|i: int| 0 <= i < 64 implies #[trigger] first[i] == second[i] by {
        lemma_found_alike(a.white, b.white, i / 8, i % 8);
        lemma_found_alike(a.black, b.black, i / 8, i % 8);
    }
    assert(first =~= second);
}

} // verus!