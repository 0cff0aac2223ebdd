//! The knight.
use crate::piece_types::{PieceColor, QuickPiece};
use crate::pieces::movement;
use crate::pieces::movement::with_offset;
use crate::pieces::PieceMove;
use crate::pieces::{can_land_on, coord_on_board, delta, distance, may_land, on_board, Grid};
use vstd::prelude::*;

verus! {

/// A knight: its square and its side.
#[derive(Copy, Clone, Debug, PartialEq, Eq, Structural)]
pub struct Knight {
    pub pos_x: usize,
    pub pos_y: usize,
    pub piece_color: PieceColor,
}

impl Knight {
    /// A knight on the given square.
    pub fn new(pos_x: usize, pos_y: usize, piece_color: PieceColor) -> (knight: Knight)
        ensures
            knight == (Knight { pos_x, pos_y, piece_color }),
    {
        Knight { pos_x, pos_y, piece_color }
    }
}

impl PieceMove for Knight {
    open spec fn square(&self) -> (usize, usize) {
        (self.pos_x, self.pos_y)
    }

    /// A knight jumps two squares along one axis and one along the other.
    open spec fn reaches(&self, x: int, y: int, grid: Grid) -> bool {
        &&& on_board(self.pos_x as int, self.pos_y as int)
        &&& on_board(x, y)
        &&& ((distance(x, self.pos_x as int) == 1 && distance(y, self.pos_y as int) == 2) || (
        distance(x, self.pos_x as int) == 2 && distance(y, self.pos_y as int) == 1))
        &&& may_land(grid, x, y, self.piece_color)
    }

    /// The jumps that end on the board, clockwise from the one up and to
    /// the right.
    open spec fn reachable(&self) -> Seq<(usize, usize)> {
        let x = self.pos_x as int;
        let y = self.pos_y as int;
        let s0 = with_offset(Seq::empty(), x, y, 1, 2);
        let s1 = with_offset(s0, x, y, 2, 1);
        let s2 = with_offset(s1, x, y, 2, -1);
        let s3 = with_offset(s2, x, y, 1, -2);
        let s4 = with_offset(s3, x, y, -1, -2);
        let s5 = with_offset(s4, x, y, -2, -1);
        let s6 = with_offset(s5, x, y, -2, 1);
        with_offset(s6, x, y, -1, 2)
    }

    open spec fn placed_at(&self, x: usize, y: usize) -> Knight {
        Knight { pos_x: x, pos_y: y, piece_color: self.piece_color }
    }

    fn can_move(&self, x_coord: usize, y_coord: usize, quick_board: &Vec<Vec<QuickPiece>>) -> (can:
        bool) {
        if !coord_on_board(x_coord, y_coord, quick_board) {
            return false;
        }
        if !coord_on_board(self.pos_x, self.pos_y, quick_board) {
            return false;
        }
        let x_delta = delta(x_coord, self.pos_x);
        let y_delta = delta(y_coord, self.pos_y);
        if !((x_delta == 1 && y_delta == 2) || (x_delta == 2 && y_delta == 1)) {
            return false;
        }
        can_land_on(x_coord, y_coord, self.piece_color, quick_board)
    }

    fn moves_on_board(&self) -> (moves: Vec<(usize, usize)>) {
        let mut return_moves: Vec<(usize, usize)> = Vec::new();
        movement::push_offset(&mut return_moves, self.pos_x, self.pos_y, 1, 2);
        movement::push_offset(&mut return_moves, self.pos_x, self.pos_y, 2, 1);
        movement::push_offset(&mut return_moves, self.pos_x, self.pos_y, 2, -1);
        movement::push_offset(&mut return_moves, self.pos_x, self.pos_y, 1, -2);
        movement::push_offset(&mut return_moves, self.pos_x, self.pos_y, -1, -2);
        movement::push_offset(&mut return_moves, self.pos_x, self.pos_y, -2, -1);
        movement::push_offset(&mut return_moves, self.pos_x, self.pos_y, -2, 1);
        movement::push_offset(&mut return_moves, self.pos_x, self.pos_y, -1, 2);
        return_moves
    }

    fn get_pos(&self) -> (pos: (usize, usize)) {
        (self.pos_x, self.pos_y)
    }

    fn set_pos(&mut self, x_coord: usize, y_coord: usize) {
        self.pos_x = x_coord;
        self.pos_y = y_coord;
    }
}

} // verus!
