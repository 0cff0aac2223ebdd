//! The king.
use crate::piece_types::{PieceColor, QuickPiece};
use crate::pieces::movement;
use crate::pieces::movement::with_offset;
use crate::pieces::PieceMove;
use crate::pieces::{can_land_on, coord_on_board, delta, distance, may_land, on_board, Grid};
use vstd::prelude::*;

verus! {

/// A king: its square and its side.
#[derive(Copy, Clone, Debug, PartialEq, Eq, Structural)]
pub struct King {
    pub pos_x: usize,
    pub pos_y: usize,
    pub piece_color: PieceColor,
    /// Whether the king has ever been moved; a king that has cannot castle.
    pub has_moved: bool,
}

impl King {
    /// A king on the given square that has not moved yet.
    pub fn new(pos_x: usize, pos_y: usize, piece_color: PieceColor) -> (king: King)
        ensures
            king == (King { pos_x, pos_y, piece_color, has_moved: false }),
    {
        King { pos_x, pos_y, piece_color, has_moved: false }
    }

    /// Whether the piece has ever been moved.
    pub fn get_has_moved(&self) -> (moved: bool)
        ensures
            moved == self.has_moved,
    {
        self.has_moved
    }

    /// Records whether the piece has ever been moved.
    pub fn set_has_moved(&mut self, value: bool)
        ensures
            *final(self) == (King { has_moved: value, ..*old(self) }),
    {
        self.has_moved = value;
    }
}

impl PieceMove for King {
    open spec fn square(&self) -> (usize, usize) {
        (self.pos_x, self.pos_y)
    }

    /// A king moves one square in any direction.
    open spec fn reaches(&self, x: int, y: int, grid: Grid) -> bool {
        &&& on_board(self.pos_x as int, self.pos_y as int)
        &&& on_board(x, y)
        &&& distance(x, self.pos_x as int) <= 1
        &&& distance(y, self.pos_y as int) <= 1
        &&& !(self.pos_x == x && self.pos_y == y)
        &&& may_land(grid, x, y, self.piece_color)
    }

    /// The neighbours that are on the board: the rank above from left to
    /// right, the two on the king's rank, then the rank below.
    open spec fn reachable(&self) -> Seq<(usize, usize)> {
        let x = self.pos_x as int;
        let y = self.pos_y as int;
        let s0 = with_offset(Seq::empty(), x, y, -1, 1);
        let s1 = with_offset(s0, x, y, 0, 1);
        let s2 = with_offset(s1, x, y, 1, 1);
        let s3 = with_offset(s2, x, y, -1, 0);
        let s4 = with_offset(s3, x, y, 1, 0);
        let s5 = with_offset(s4, x, y, -1, -1);
        let s6 = with_offset(s5, x, y, 0, -1);
        with_offset(s6, x, y, 1, -1)
    }

    open spec fn placed_at(&self, x: usize, y: usize) -> King {
        King { pos_x: x, pos_y: y, piece_color: self.piece_color, has_moved: self.has_moved }
    }

    fn get_pos(&self) -> (pos: (usize, usize)) {
        (self.pos_x, self.pos_y)
    }

    fn set_pos(&mut self, x_coord: usize, y_coord: usize) {
        self.pos_x = x_coord;
        self.pos_y = y_coord;
    }

    fn can_move(&self, x_coord: usize, y_coord: usize, quick_board: &Vec<Vec<QuickPiece>>) -> (can:
        bool) {
        if !coord_on_board(x_coord, y_coord, quick_board) {
            return false;
        }
        if !coord_on_board(self.pos_x, self.pos_y, quick_board) {
            return false;
        }
        let x_delta = delta(x_coord, self.pos_x);
        let y_delta = delta(y_coord, self.pos_y);
        if x_delta > 1 || y_delta > 1 {
            return false;
        }
        if x_delta == 0 && y_delta == 0 {
            return false;
        }
        can_land_on(x_coord, y_coord, self.piece_color, quick_board)
    }

    fn moves_on_board(&self) -> (moves: Vec<(usize, usize)>) {
        let mut return_moves: Vec<(usize, usize)> = Vec::new();
        movement::push_offset(&mut return_moves, self.pos_x, self.pos_y, -1, 1);
        movement::push_offset(&mut return_moves, self.pos_x, self.pos_y, 0, 1);
        movement::push_offset(&mut return_moves, self.pos_x, self.pos_y, 1, 1);
        movement::push_offset(&mut return_moves, self.pos_x, self.pos_y, -1, 0);
        movement::push_offset(&mut return_moves, self.pos_x, self.pos_y, 1, 0);
        movement::push_offset(&mut return_moves, self.pos_x, self.pos_y, -1, -1);
        movement::push_offset(&mut return_moves, self.pos_x, self.pos_y, 0, -1);
        movement::push_offset(&mut return_moves, self.pos_x, self.pos_y, 1, -1);
        return_moves
    }
}

} // verus!
