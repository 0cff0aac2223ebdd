//! Proofs that the operations on a position keep its grid and its lists of
//! live pieces in agreement.
use crate::piece_types::{PieceColor, QuickPiece};
use crate::pieces::{grid_with, is_chess_grid, on_board, AnyPiece, Grid, PieceMove};
use crate::position::{
    backed, distinct_squares, find_at, is_first_at, kings_cached, lemma_find_at_none, none_at,
    pawn_from_pawn_rank, pieces_valid, shown, BoardView,
};
use vstd::prelude::*;

verus! {

/// The grid keeps its shape when a square is rewritten.
pub proof fn lemma_grid_with_shape(grid: Grid, x: int, y: int, content: QuickPiece)
    requires
        is_chess_grid(grid),
        on_board(x, y),
    ensures
        is_chess_grid(grid_with(grid, x, y, content)),
        grid_with(grid, x, y, content)[x][y] == content,
        forall|a: int, b: int|
            on_board(a, b) && !(a == x && b == y) ==> #[trigger] grid_with(grid, x, y, content)[a][b]
                == grid[a][b],
{
    let after = grid_with(grid, x, y, content);
    assert forall|a: int| 0 <= a < 8 implies (#[trigger] after[a]).len() == 8 by {
        assert(grid[a].len() == 8);
    }
    assert forall|a: int, b: int| on_board(a, b) && !(a == x && b == y) implies #[trigger] after[a][b]
        == grid[a][b] by {
        assert(grid[a].len() == 8);
    }
    assert(grid[x].len() == 8);
}

/// Where the grid and the lists agree, the grid has its shape.
pub proof fn lemma_consistent_shaped(b: BoardView)
    requires
        b.consistent(),
    ensures
        is_chess_grid(b.grid),
{
    reveal(BoardView::consistent);
}

/// Whether two positions hold the same pieces on the same squares.
pub open spec fn same_placement(a: BoardView, b: BoardView) -> bool {
    &&& a.grid == b.grid
    &&& a.white == b.white
    &&& a.black == b.black
    &&& a.white_king == b.white_king
    &&& a.black_king == b.black_king
}

/// The agreement of grid and lists does not depend on the log, on the
/// turn or on the counted fingerprints.
pub proof fn lemma_consistent_frame(a: BoardView, b: BoardView)
    requires
        a.consistent(),
        same_placement(a, b),
    ensures
        b.consistent(),
{
    reveal(BoardView::consistent);
}

/// A piece of one side never stands where the grid shows the other side,
/// or nothing.
pub proof fn lemma_shown_holds(b: BoardView, color: PieceColor, i: int)
    requires
        b.consistent(),
        0 <= i < b.pieces(color).len(),
    ensures
        b.pieces(color)[i].placed(),
        b.pieces(color)[i].side() == color,
        pawn_from_pawn_rank(b.pieces(color)[i]),
        b.grid[b.pieces(color)[i].square().0 as int][b.pieces(color)[i].square().1 as int].holds(
            color,
        ),
        b.grid[b.pieces(color)[i].square().0 as int][b.pieces(color)[i].square().1 as int]
            == b.pieces(color)[i].content(),
        find_at(
            b.pieces(color),
            b.pieces(color)[i].square().0 as int,
            b.pieces(color)[i].square().1 as int,
        ) == Some(i),
{
    reveal(BoardView::consistent);
    let pieces = b.pieces(color);
    let x = pieces[i].square().0 as int;
    let y = pieces[i].square().1 as int;
    assert(pieces[i].placed());
    assert(is_first_at(pieces, i, x, y)) by {
        assert forall|j: int| 0 <= j < i implies !(#[trigger] pieces[j]).stands_on(x, y) by {
            assert(pieces[j].square() != pieces[i].square());
        }
    }
    crate::position::lemma_find_at_first(pieces, i, x, y);
}

/// Where the grid shows a piece of a side, the first piece of that side on
/// the square is the only one.
pub proof fn lemma_backed_piece(b: BoardView, color: PieceColor, x: int, y: int)
    requires
        b.consistent(),
        on_board(x, y),
    ensures
        b.grid[x][y].holds(color) <==> find_at(b.pieces(color), x, y) is Some,
        find_at(b.pieces(color), x, y) matches Some(k) ==> {
            &&& 0 <= k < b.pieces(color).len()
            &&& b.pieces(color)[k].stands_on(x, y)
            &&& forall|j: int|
                0 <= j < b.pieces(color).len() && j != k ==> !(#[trigger] b.pieces(color)[j]).stands_on(
                    x,
                    y,
                )
        },
{
    reveal(BoardView::consistent);
    let pieces = b.pieces(color);
    lemma_find_at_none(pieces, x, y);
    match find_at(pieces, x, y) {
        Some(k) => {
            lemma_shown_holds(b, color, k);
            assert forall|j: int| 0 <= j < pieces.len() && j != k implies !(
            #[trigger] pieces[j]).stands_on(x, y) by {
                if j < k {
                    assert(pieces[j].square() != pieces[k].square());
                } else {
                    assert(pieces[k].square() != pieces[j].square());
                }
            }
        },
        None => {
            if b.grid[x][y].holds(color) {
                assert(!none_at(pieces, x, y));
            }
        },
    }
}

/// A piece may be exchanged for another on the same square that shows the
/// same on the grid.
pub proof fn lemma_replace_consistent(b: BoardView, color: PieceColor, i: int, piece: AnyPiece)
    requires
        b.consistent(),
        0 <= i < b.pieces(color).len(),
        piece.square() == b.pieces(color)[i].square(),
        piece.side() == color,
        piece is King <==> b.pieces(color)[i] is King,
        pawn_from_pawn_rank(piece),
    ensures
        b.with_pieces(color, b.pieces(color).update(i, piece)).consistent(),
{
    reveal(BoardView::consistent);
    let old_pieces = b.pieces(color);
    let new_pieces = old_pieces.update(i, piece);
    let after = b.with_pieces(color, new_pieces);
    let other = color.opposite();
    assert(after.pieces(other) == b.pieces(other));
    assert(after.pieces(color) == new_pieces);
    assert(pieces_valid(new_pieces, color)) by {
        assert forall|j: int| 0 <= j < new_pieces.len() implies {
            &&& (#[trigger] new_pieces[j]).placed()
            &&& new_pieces[j].side() == color
            &&& pawn_from_pawn_rank(new_pieces[j])
        } by {
            assert(old_pieces[j].placed());
            if j == i {
                assert(old_pieces[i].placed());
            }
        }
    }
    assert(distinct_squares(new_pieces)) by {
        assert forall|j: int, k: int| 0 <= j < k < new_pieces.len() implies (
        #[trigger] new_pieces[j]).square() != (#[trigger] new_pieces[k]).square() by {
            assert(old_pieces[j].square() != old_pieces[k].square());
        }
    }
    assert(shown(b.grid, new_pieces)) by {
        assert forall|j: int| 0 <= j < new_pieces.len() implies b.grid[(
        #[trigger] new_pieces[j]).square().0 as int][new_pieces[j].square().1 as int]
            == new_pieces[j].content() by {
            assert(b.grid[old_pieces[j].square().0 as int][old_pieces[j].square().1 as int]
                == old_pieces[j].content());
        }
    }
    assert(backed(b.grid, new_pieces, color)) by {
        assert forall|x: int, y: int| on_board(x, y) && (#[trigger] b.grid[x][y]).holds(
            color,
        ) implies !none_at(new_pieces, x, y) by {
            assert(!none_at(old_pieces, x, y));
            let j = choose|j: int|
                0 <= j < old_pieces.len() && (#[trigger] old_pieces[j]).stands_on(x, y);
            assert(new_pieces[j].stands_on(x, y));
        }
    }
    assert(kings_cached(new_pieces, b.king_square(color))) by {
        assert forall|j: int| 0 <= j < new_pieces.len() && (#[trigger] new_pieces[j]) is King implies new_pieces[j].square()
            == b.king_square(color) by {
            assert(old_pieces[j] is King);
        }
    }
}

/// Taking a piece off the board keeps the grid and the lists in agreement.
pub proof fn lemma_without_consistent(b: BoardView, color: PieceColor, x: int, y: int)
    requires
        b.consistent(),
    ensures
        b.without(color, x, y).consistent(),
{
    reveal(BoardView::consistent);
    let pieces = b.pieces(color);
    let other = color.opposite();
    lemma_find_at_none(pieces, x, y);
    match find_at(pieces, x, y) {
        None => {},
        Some(k) => {
            lemma_shown_holds(b, color, k);
            assert(on_board(x, y));
            lemma_backed_piece(b, color, x, y);
            lemma_backed_piece(b, other, x, y);
            let left = pieces.remove(k);
            let grid = grid_with(b.grid, x, y, QuickPiece::EMPTY);
            let after = b.without(color, x, y);
            lemma_grid_with_shape(b.grid, x, y, QuickPiece::EMPTY);
            assert(after.grid == grid);
            assert(after.pieces(color) == left);
            assert(after.pieces(other) == b.pieces(other));
            assert forall|j: int| 0 <= j < left.len() implies (#[trigger] left[j]) == pieces[if j
                < k {
                j
            } else {
                j + 1
            }] by {}
            assert(pieces_valid(left, color)) by {
                assert forall|j: int| 0 <= j < left.len() implies {
                    &&& (#[trigger] left[j]).placed()
                    &&& left[j].side() == color
                    &&& pawn_from_pawn_rank(left[j])
                } by {
                    let o = if j < k {
                        j
                    } else {
                        j + 1
                    };
                    assert(pieces[o].placed());
                }
            }
            assert(distinct_squares(left)) by {
                assert forall|j: int, l: int| 0 <= j < l < left.len() implies (
                #[trigger] left[j]).square() != (#[trigger] left[l]).square() by {
                    let oj = if j < k {
                        j
                    } else {
                        j + 1
                    };
                    let ol = if l < k {
                        l
                    } else {
                        l + 1
                    };
                    assert(pieces[oj].square() != pieces[ol].square());
                }
            }
            assert(shown(grid, left)) by {
                assert forall|j: int| 0 <= j < left.len() implies grid[(
                #[trigger] left[j]).square().0 as int][left[j].square().1 as int]
                    == left[j].content() by {
                    let o = if j < k {
                        j
                    } else {
                        j + 1
                    };
                    assert(pieces[o].placed());
                    assert(!pieces[o].stands_on(x, y));
                    assert(b.grid[pieces[o].square().0 as int][pieces[o].square().1 as int]
                        == pieces[o].content());
                }
            }
            assert(shown(grid, b.pieces(other))) by {
                let others = b.pieces(other);
                assert forall|j: int| 0 <= j < others.len() implies grid[(
                #[trigger] others[j]).square().0 as int][others[j].square().1 as int]
                    == others[j].content() by {
                    lemma_shown_holds(b, other, j);
                    assert(!others[j].stands_on(x, y));
                }
            }
            assert(backed(grid, left, color)) by {
                assert forall|a: int, c: int| on_board(a, c) && (#[trigger] grid[a][c]).holds(
                    color,
                ) implies !none_at(left, a, c) by {
                    assert(!(a == x && c == y));
                    assert(b.grid[a][c].holds(color));
                    assert(!none_at(pieces, a, c));
                    let j = choose|j: int|
                        0 <= j < pieces.len() && (#[trigger] pieces[j]).stands_on(a, c);
                    assert(j != k);
                    let n = if j < k {
                        j
                    } else {
                        j - 1
                    };
                    assert(left[n].stands_on(a, c));
                }
            }
            assert(backed(grid, b.pieces(other), other)) by {
                assert forall|a: int, c: int| on_board(a, c) && (#[trigger] grid[a][c]).holds(
                    other,
                ) implies !none_at(b.pieces(other), a, c) by {
                    assert(!(a == x && c == y));
                    assert(b.grid[a][c].holds(other));
                }
            }
            assert(kings_cached(left, b.king_square(color))) by {
                assert forall|j: int| 0 <= j < left.len() && (#[trigger] left[j]) is King implies left[j].square()
                    == b.king_square(color) by {
                    let o = if j < k {
                        j
                    } else {
                        j + 1
                    };
                    assert(pieces[o] is King);
                }
            }
        },
    }
}

/// Lifting a piece onto a square that is empty or shows the other side
/// keeps the grid and the lists in agreement.
pub proof fn lemma_applied_consistent(
    b: BoardView,
    color: PieceColor,
    x_start: int,
    y_start: int,
    x_end: int,
    y_end: int,
)
    requires
        b.consistent(),
        on_board(x_start, y_start),
        on_board(x_end, y_end),
        b.has_piece(color, x_start, y_start),
        !b.grid[x_end][y_end].holds(color),
    ensures
        b.applied(x_start, y_start, x_end, y_end, color).consistent(),
{
    reveal(BoardView::consistent);
    let other = color.opposite();
    let own = b.pieces(color);
    let others = b.pieces(other);
    let i = find_at(own, x_start, y_start)->0;
    let after = b.applied(x_start, y_start, x_end, y_end, color);
    let lifted = grid_with(b.grid, x_start, y_start, QuickPiece::EMPTY);
    let grid = grid_with(lifted, x_end, y_end, b.grid[x_start][y_start]);
    let mover = own[i].placed_at(x_end as usize, y_end as usize);
    let moved = own.update(i, mover);
    let left = b.survivors(color, x_end, y_end);

    lemma_backed_piece(b, color, x_start, y_start);
    lemma_backed_piece(b, color, x_end, y_end);
    lemma_backed_piece(b, other, x_start, y_start);
    lemma_backed_piece(b, other, x_end, y_end);
    lemma_shown_holds(b, color, i);
    lemma_grid_with_shape(b.grid, x_start, y_start, QuickPiece::EMPTY);
    lemma_grid_with_shape(lifted, x_end, y_end, b.grid[x_start][y_start]);
    assert(!(x_start == x_end && y_start == y_end));
    assert(b.grid[x_start][y_start] == own[i].content());
    assert(mover.content() == own[i].content());
    assert(mover.side() == color);
    assert(mover.stands_on(x_end, y_end));
    assert(mover is King <==> own[i] is King);
    assert(pawn_from_pawn_rank(mover));
    assert(after.grid == grid);
    assert(after.pieces(color) == moved);
    assert(after.pieces(other) == left);
    assert(grid[x_end][y_end] == own[i].content());
    assert(grid[x_start][y_start] == QuickPiece::EMPTY);
    assert forall|a: int, c: int|
        on_board(a, c) && !(a == x_start && c == y_start) && !(a == x_end && c == y_end) implies #[trigger] grid[a][c]
        == b.grid[a][c] by {
        assert(lifted[a][c] == b.grid[a][c]);
    }

    assert(pieces_valid(moved, color)) by {
        assert forall|j: int| 0 <= j < moved.len() implies {
            &&& (#[trigger] moved[j]).placed()
            &&& moved[j].side() == color
            &&& pawn_from_pawn_rank(moved[j])
        } by {
            assert(own[j].placed());
        }
    }
    assert(distinct_squares(moved)) by {
        assert forall|j: int, k: int| 0 <= j < k < moved.len() implies (
        #[trigger] moved[j]).square() != (#[trigger] moved[k]).square() by {
            assert(own[j].square() != own[k].square());
            if j == i {
                assert(!own[k].stands_on(x_end, y_end));
            }
            if k == i {
                assert(!own[j].stands_on(x_end, y_end));
            }
        }
    }
    assert(shown(grid, moved)) by {
        assert forall|j: int| 0 <= j < moved.len() implies grid[(
        #[trigger] moved[j]).square().0 as int][moved[j].square().1 as int]
            == moved[j].content() by {
            if j != i {
                assert(own[j].placed());
                assert(!own[j].stands_on(x_end, y_end));
                assert(!own[j].stands_on(x_start, y_start));
                assert(b.grid[own[j].square().0 as int][own[j].square().1 as int]
                    == own[j].content());
            }
        }
    }
    assert(backed(grid, moved, color)) by {
        assert forall|a: int, c: int| on_board(a, c) && (#[trigger] grid[a][c]).holds(
            color,
        ) implies !none_at(moved, a, c) by {
            if a == x_end && c == y_end {
                assert(moved[i].stands_on(a, c));
            } else {
                assert(!(a == x_start && c == y_start));
                assert(b.grid[a][c].holds(color));
                assert(!none_at(own, a, c));
                let j = choose|j: int| 0 <= j < own.len() && (#[trigger] own[j]).stands_on(a, c);
                assert(j != i);
                assert(moved[j].stands_on(a, c));
            }
        }
    }
    assert(kings_cached(moved, after.king_square(color))) by {
        assert forall|j: int| 0 <= j < moved.len() && (#[trigger] moved[j]) is King implies moved[j].square()
            == after.king_square(color) by {
            if j != i {
                assert(own[j] is King);
                if own[i] is King {
                    if j < i {
                        assert(own[j].square() != own[i].square());
                    } else {
                        assert(own[i].square() != own[j].square());
                    }
                }
            }
        }
    }
    // The other side: its list lost at most the piece on the end square.
    lemma_find_at_none(others, x_end, y_end);
    let gone = if b.grid[x_end][y_end].holds(other) {
        find_at(others, x_end, y_end)
    } else {
        None
    };
    assert(gone is Some <==> b.grid[x_end][y_end].holds(other));
    assert forall|j: int| 0 <= j < left.len() implies (#[trigger] left[j]) == others[if gone
        is Some && j >= gone->0 {
        j + 1
    } else {
        j
    }] && !left[j].stands_on(x_end, y_end) && !left[j].stands_on(x_start, y_start) by {
        let o = if gone is Some && j >= gone->0 {
            j + 1
        } else {
            j
        };
        lemma_shown_holds(b, other, o);
    }
    assert(pieces_valid(left, other)) by {
        assert forall|j: int| 0 <= j < left.len() implies {
            &&& (#[trigger] left[j]).placed()
            &&& left[j].side() == other
            &&& pawn_from_pawn_rank(left[j])
        } by {
            let o = if gone is Some && j >= gone->0 {
                j + 1
            } else {
                j
            };
            assert(others[o].placed());
        }
    }
    assert(distinct_squares(left)) by {
        assert forall|j: int, l: int| 0 <= j < l < left.len() implies (
        #[trigger] left[j]).square() != (#[trigger] left[l]).square() by {
            let oj = if gone is Some && j >= gone->0 {
                j + 1
            } else {
                j
            };
            let ol = if gone is Some && l >= gone->0 {
                l + 1
            } else {
                l
            };
            assert(others[oj].square() != others[ol].square());
        }
    }
    assert(shown(grid, left)) by {
        assert forall|j: int| 0 <= j < left.len() implies grid[(
        #[trigger] left[j]).square().0 as int][left[j].square().1 as int]
            == left[j].content() by {
            let o = if gone is Some && j >= gone->0 {
                j + 1
            } else {
                j
            };
            assert(others[o].placed());
            assert(b.grid[others[o].square().0 as int][others[o].square().1 as int]
                == others[o].content());
        }
    }
    assert(backed(grid, left, other)) by {
        assert forall|a: int, c: int| on_board(a, c) && (#[trigger] grid[a][c]).holds(
            other,
        ) implies !none_at(left, a, c) by {
            assert(!(a == x_end && c == y_end));
            assert(!(a == x_start && c == y_start));
            assert(b.grid[a][c].holds(other));
            assert(!none_at(others, a, c));
            let j = choose|j: int| 0 <= j < others.len() && (#[trigger] others[j]).stands_on(a, c);
            let n = if gone is Some && j > gone->0 {
                j - 1
            } else {
                j
            };
            assert(left[n].stands_on(a, c));
        }
    }
    assert(kings_cached(left, b.king_square(other))) by {
        assert forall|j: int| 0 <= j < left.len() && (#[trigger] left[j]) is King implies left[j].square()
            == b.king_square(other) by {
            let o = if gone is Some && j >= gone->0 {
                j + 1
            } else {
                j
            };
            assert(others[o] is King);
        }
    }
    assert(after.king_square(other) == b.king_square(other));
}

/// The position in which a move is made: without the pawn that a capture
/// en passant takes.
pub open spec fn base_of(
    b: BoardView,
    symbol: Seq<char>,
    color: PieceColor,
    x_start: int,
    y_start: int,
    x_end: int,
    y_end: int,
) -> BoardView {
    if b.captures_passing(symbol, color, x_start, y_start, x_end, y_end) {
        b.passed(color)
    } else {
        b
    }
}

/// Taking the passed pawn off the board leaves the mover's side alone.
pub proof fn lemma_base(
    b: BoardView,
    symbol: Seq<char>,
    color: PieceColor,
    x_start: int,
    y_start: int,
    x_end: int,
    y_end: int,
)
    requires
        b.consistent(),
        on_board(x_start, y_start),
        on_board(x_end, y_end),
        b.has_piece(color, x_start, y_start),
        !b.grid[x_end][y_end].holds(color),
    ensures
        base_of(b, symbol, color, x_start, y_start, x_end, y_end).consistent(),
        base_of(b, symbol, color, x_start, y_start, x_end, y_end).pieces(color) == b.pieces(color),
        base_of(b, symbol, color, x_start, y_start, x_end, y_end).king_square(color)
            == b.king_square(color),
        !base_of(b, symbol, color, x_start, y_start, x_end, y_end).grid[x_end][y_end].holds(color),
        base_of(b, symbol, color, x_start, y_start, x_end, y_end).moves == b.moves,
        base_of(b, symbol, color, x_start, y_start, x_end, y_end).counts == b.counts,
        base_of(b, symbol, color, x_start, y_start, x_end, y_end).last_move_color
            == b.last_move_color,
{
    let base = base_of(b, symbol, color, x_start, y_start, x_end, y_end);
    if b.captures_passing(symbol, color, x_start, y_start, x_end, y_end) {
        let played = b.moves.last();
        let x = played.end.0 as int;
        let y = played.end.1 as int;
        lemma_without_consistent(b, color.opposite(), x, y);
        lemma_consistent_shaped(b);
        lemma_find_at_none(b.pieces(color.opposite()), x, y);
        if find_at(b.pieces(color.opposite()), x, y) is Some && on_board(x, y) {
            lemma_grid_with_shape(b.grid, x, y, QuickPiece::EMPTY);
        }
    }
}

/// Playing a move keeps the grid and the lists in agreement, and the
/// mover's king is attacked afterwards just where the trial of the move
/// said so.
pub proof fn lemma_played_consistent(
    b: BoardView,
    symbol: Seq<char>,
    color: PieceColor,
    x_start: int,
    y_start: int,
    x_end: int,
    y_end: int,
    promotion: Option<Seq<char>>,
)
    requires
        b.consistent(),
        on_board(x_start, y_start),
        on_board(x_end, y_end),
        b.has_piece(color, x_start, y_start),
        !b.grid[x_end][y_end].holds(color),
        b.promotes(color, x_start, y_start, y_end) ==> crate::rules::promotion_piece(
            promotion,
            x_end as usize,
            y_end as usize,
            color,
        ) is Some,
    ensures
        b.played(symbol, color, x_start, y_start, x_end, y_end, promotion).consistent(),
        b.played(symbol, color, x_start, y_start, x_end, y_end, promotion).in_check(color)
            == base_of(b, symbol, color, x_start, y_start, x_end, y_end).exposes(
            x_start,
            y_start,
            x_end,
            y_end,
            color,
            color,
        ),
        b.played(symbol, color, x_start, y_start, x_end, y_end, promotion).last_move_color
            == b.last_move_color,
{
    let base = base_of(b, symbol, color, x_start, y_start, x_end, y_end);
    lemma_base(b, symbol, color, x_start, y_start, x_end, y_end);
    lemma_applied_consistent(base, color, x_start, y_start, x_end, y_end);
    let lifted = base.applied(x_start, y_start, x_end, y_end, color);
    lemma_find_at_none(b.pieces(color), x_start, y_start);
    let i = find_at(b.pieces(color), x_start, y_start)->0;
    assert(lifted.pieces(color).len() == b.pieces(color).len());
    lemma_shown_holds(lifted, color, i);
    let mover = lifted.pieces(color)[i];
    assert(mover == b.pieces(color)[i].placed_at(x_end as usize, y_end as usize));
    let promoted = if b.promotes(color, x_start, y_start, y_end) {
        crate::rules::promotion_piece(promotion, x_end as usize, y_end as usize, color)
    } else {
        None
    };
    let settled = match promoted {
        Some(piece) => piece,
        None => crate::rules::touched(mover),
    };
    crate::rules::lemma_touched(mover);
    assert(mover is Pawn <==> b.pieces(color)[i] is Pawn);
    lemma_replace_consistent(lifted, color, i, settled);
    let moved = base.moved(color, x_start, y_start, x_end, y_end, promoted);
    assert(moved == lifted.with_piece(color, i, settled));
    let after = b.played(symbol, color, x_start, y_start, x_end, y_end, promotion);
    lemma_consistent_frame(moved, after);
    assert(after.pieces(color.opposite()) == lifted.pieces(color.opposite()));
    assert(after.king_square(color) == lifted.king_square(color));
}

/// A move that a description names is one that the position admits.
pub proof fn lemma_resolved_admits(b: BoardView, described: crate::parser::ParsedMoveView)
    requires
        b.consistent(),
        b.resolved(described) is Ok,
    ensures
        b.admits(b.resolved(described)->Ok_0),
{
    let color = b.to_move();
    let mv = b.resolved(described)->Ok_0;
    if !(described.kind is Castle) {
        let x = crate::parser::coordinate_of(described.end.0)->0 as int;
        let y = crate::parser::coordinate_of(described.end.1)->0 as int;
        let i = b.resolution(color, described, x, y)->Ok_0;
        assert(b.candidate(color, i, described, x, y));
        lemma_shown_holds(b, color, i);
        lemma_consistent_shaped(b);
        let piece = b.pieces(color)[i];
        assert(described.piece == seq![piece.letter()]);
        assert(!b.grid[x][y].holds(color));
        if mv.tag is Promotion {
            let named = crate::rules::promotion_named(described.kind);
            let text = named->0;
            let promoted = crate::rules::promotion_piece(named, x as usize, y as usize, color)->0;
            assert(text =~= seq![promoted.letter()]);
        }
    }
}

} // verus!