//! A test, at run time, of whether the grid and the lists of live pieces of
//! a position agree.
use crate::board::Board;
use crate::piece_types::{PieceColor, QuickPiece};
use crate::pieces::{grid_view, is_chess_board, AnyPiece, PieceMove};
use crate::position::{
    backed, distinct_squares, kings_cached, none_at, pawn_from_pawn_rank, pieces_valid, shown,
    BoardView,
};
use vstd::prelude::*;

verus! {

/// Whether the grid has eight files of eight ranks.
pub fn is_board_shaped(files: &Vec<Vec<QuickPiece>>) -> (shaped: bool)
    ensures
        shaped == is_chess_board(files@),
{
    if files.len() != 8 {
        return false;
    }
    let mut x: usize = 0;
    while x < 8
        invariant
            files@.len() == 8,
            x <= 8,
            forall|a: int| 0 <= a < x ==> (#[trigger] files@[a]).len() == 8,
        decreases 8 - x,
    {
        if files[x].len() != 8 {
            return false;
        }
        x = x + 1;
    }
    true
}

/// Whether every piece of the list stands on the board and belongs to
/// `color`, and its pawns started from the pawn rank.
pub fn are_pieces_valid(pieces: &Vec<AnyPiece>, color: &PieceColor) -> (valid: bool)
    ensures
        valid == pieces_valid(pieces@, *color),
{
    let pawn_rank: usize = match color {
        PieceColor::WHITE => 1,
        PieceColor::BLACK => 6,
    };
    let mut index: usize = 0;
    while index < pieces.len()
        invariant
            index <= pieces@.len(),
            pawn_rank == color.pawn_rank(),
            forall|i: int|
                0 <= i < index ==> {
                    &&& (#[trigger] pieces@[i]).placed()
                    &&& pieces@[i].side() == *color
                    &&& pawn_from_pawn_rank(pieces@[i])
                },
        decreases pieces@.len() - index,
    {
        let piece = &pieces[index];
        let pos = piece.get_pos();
        if pos.0 >= 8 || pos.1 >= 8 {
            return false;
        }
        if piece.get_color() != *color {
            return false;
        }
        match piece {
            AnyPiece::Pawn(pawn) => {
                if pawn.starting_y_position != pawn_rank {
                    return false;
                }
            },
            _ => {},
        }
        index = index + 1;
    }
    true
}

/// Whether no two pieces of the list stand on one square.
pub fn are_squares_distinct(pieces: &Vec<AnyPiece>) -> (distinct: bool)
    ensures
        distinct == distinct_squares(pieces@),
{
    let mut first: usize = 0;
    while first < pieces.len()
        invariant
            first <= pieces@.len(),
            forall|i: int, j: int|
                0 <= i < first && i < j < pieces@.len() ==> (#[trigger] pieces@[i]).square() != (
                #[trigger] pieces@[j]).square(),
        decreases pieces@.len() - first,
    {
        let pos = pieces[first].get_pos();
        let mut second: usize = first + 1;
        while second < pieces.len()
            invariant
                first < pieces@.len(),
                first < second <= pieces@.len(),
                pos == pieces@[first as int].square(),
                forall|j: int|
                    first < j < second ==> pos != (#[trigger] pieces@[j]).square(),
            decreases pieces@.len() - second,
        {
            let other = pieces[second].get_pos();
            if pos.0 == other.0 && pos.1 == other.1 {
                return false;
            }
            second = second + 1;
        }
        first = first + 1;
    }
    true
}

/// Whether the grid shows each piece of the list on its square, and each
/// king of the list stands on the cached square.
pub fn are_pieces_shown(
    files: &Vec<Vec<QuickPiece>>,
    pieces: &Vec<AnyPiece>,
    cached: (usize, usize),
) -> (agree: bool)
    requires
        is_chess_board(files@),
        forall|i: int| 0 <= i < pieces@.len() ==> (#[trigger] pieces@[i]).placed(),
    ensures
        agree == (shown(grid_view(files@), pieces@) && kings_cached(pieces@, cached)),
{
    let mut index: usize = 0;
    while index < pieces.len()
        invariant
            is_chess_board(files@),
            forall|i: int| 0 <= i < pieces@.len() ==> (#[trigger] pieces@[i]).placed(),
            index <= pieces@.len(),
            forall|i: int|
                0 <= i < index ==> grid_view(files@)[(
                #[trigger] pieces@[i]).square().0 as int][pieces@[i].square().1 as int]
                    == pieces@[i].content(),
            forall|i: int|
                0 <= i < index && (#[trigger] pieces@[i]) is King ==> pieces@[i].square()
                    == cached,
        decreases pieces@.len() - index,
    {
        let piece = &pieces[index];
        let pos = piece.get_pos();
        assert(pieces@[index as int].placed());
        if files[pos.0][pos.1] != piece.quick_piece() {
            return false;
        }
        match piece {
            AnyPiece::King(_) => {
                if pos.0 != cached.0 || pos.1 != cached.1 {
                    return false;
                }
            },
            _ => {},
        }
        index = index + 1;
    }
    true
}

impl Board {
    /// Whether whatever the grid shows of either side is a live piece.
    pub fn is_grid_backed(&self) -> (ok: bool)
        requires
            is_chess_board(self.position_board@),
        ensures
            ok == (backed(self@.grid, self@.white, PieceColor::WHITE) && backed(
                self@.grid,
                self@.black,
                PieceColor::BLACK,
            )),
    {
        let ghost grid = self@.grid;
        let mut x: usize = 0;
        while x < 8
            invariant
                is_chess_board(self.position_board@),
                grid == self@.grid,
                x <= 8,
                forall|a: int, c: int|
                    0 <= a < x && 0 <= c < 8 && (#[trigger] grid[a][c]).holds(PieceColor::WHITE)
                        ==> !none_at(self@.white, a, c),
                forall|a: int, c: int|
                    0 <= a < x && 0 <= c < 8 && (#[trigger] grid[a][c]).holds(PieceColor::BLACK)
                        ==> !none_at(self@.black, a, c),
            decreases 8 - x,
        {
            let mut y: usize = 0;
            while y < 8
                invariant
                    is_chess_board(self.position_board@),
                    grid == self@.grid,
                    x < 8,
                    y <= 8,
                    forall|a: int, c: int|
                        0 <= a < x && 0 <= c < 8 && (#[trigger] grid[a][c]).holds(
                            PieceColor::WHITE,
                        ) ==> !none_at(self@.white, a, c),
                    forall|a: int, c: int|
                        0 <= a < x && 0 <= c < 8 && (#[trigger] grid[a][c]).holds(
                            PieceColor::BLACK,
                        ) ==> !none_at(self@.black, a, c),
                    forall|c: int|
                        0 <= c < y && (#[trigger] grid[x as int][c]).holds(PieceColor::WHITE)
                            ==> !none_at(self@.white, x as int, c),
                    forall|c: int|
                        0 <= c < y && (#[trigger] grid[x as int][c]).holds(PieceColor::BLACK)
                            ==> !none_at(self@.black, x as int, c),
                decreases 8 - y,
            {
                match self.position_board[x][y].color() {
                    Some(color) => {
                        if self.index_of_piece(x, y, &color).is_none() {
                            assert(grid[x as int][y as int].holds(color));
                            return false;
                        }
                    },
                    None => {},
                }
                y = y + 1;
            }
            x = x + 1;
        }
        true
    }

    /// Whether the grid and the lists of live pieces agree.
    pub fn is_consistent(&self) -> (ok: bool)
        ensures
            ok == self.consistent(),
    {
        reveal(BoardView::consistent);
        proof {
            self.lemma_files();
        }
        if !is_board_shaped(&self.position_board) {
            return false;
        }
        if !are_pieces_valid(&self.live_white_pieces, &PieceColor::WHITE) {
            return false;
        }
        if !are_pieces_valid(&self.live_black_pieces, &PieceColor::BLACK) {
            return false;
        }
        if !are_squares_distinct(&self.live_white_pieces) {
            return false;
        }
        if !are_squares_distinct(&self.live_black_pieces) {
            return false;
        }
        if !are_pieces_shown(
            &self.position_board,
            &self.live_white_pieces,
            self.white_king_position,
        ) {
            return false;
        }
        if !are_pieces_shown(
            &self.position_board,
            &self.live_black_pieces,
            self.black_king_position,
        ) {
            return false;
        }
        self.is_grid_backed()
    }
}

} // verus!
