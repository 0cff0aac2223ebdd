//! The rook.
use crate::piece_types::{PieceColor, QuickPiece};
use crate::pieces::movement;
use crate::pieces::movement::{path_blocked, ray, straight};
use crate::pieces::PieceMove;
use crate::pieces::{can_land_on, coord_on_board, may_land, on_board, Grid};
use vstd::prelude::*;

verus! {

/// A rook: its square and its side.
#[derive(Copy, Clone, Debug, PartialEq, Eq, Structural)]
pub struct Rook {
    pub pos_x: usize,
    pub pos_y: usize,
    pub piece_color: PieceColor,
    /// Whether the rook has ever been moved; a rook that has cannot castle.
    pub has_moved: bool,
}

impl Rook {
    /// A rook on the given square that has not moved yet.
    pub fn new(pos_x: usize, pos_y: usize, piece_color: PieceColor) -> (rook: Rook)
        ensures
            rook == (Rook { pos_x, pos_y, piece_color, has_moved: false }),
    {
        Rook { pos_x, pos_y, piece_color, has_moved: false }
    }

    /// Whether the piece has ever been moved.
    pub fn get_has_moved(&self) -> (moved: bool)
        ensures
            moved == self.has_moved,
    {
        self.has_moved
    }

    /// Records whether the piece has ever been moved.
    pub fn set_has_moved(&mut self, value: bool)
        ensures
            *final(self) == (Rook { has_moved: value, ..*old(self) }),
    {
        self.has_moved = value;
    }
}

impl PieceMove for Rook {
    open spec fn square(&self) -> (usize, usize) {
        (self.pos_x, self.pos_y)
    }

    /// A rook moves along its file or its rank over empty squares.
    open spec fn reaches(&self, x: int, y: int, grid: Grid) -> bool {
        &&& on_board(self.pos_x as int, self.pos_y as int)
        &&& on_board(x, y)
        &&& !(self.pos_x == x && self.pos_y == y)
        &&& straight(self.pos_x as int, self.pos_y as int, x, y)
        &&& !path_blocked(grid, self.pos_x as int, self.pos_y as int, x, y)
        &&& may_land(grid, x, y, self.piece_color)
    }

    /// The four straight rays: right, left, up, down.
    open spec fn reachable(&self) -> Seq<(usize, usize)> {
        ray(self.pos_x as int, self.pos_y as int, 1, 0) + ray(
            self.pos_x as int,
            self.pos_y as int,
            -1,
            0,
        ) + ray(self.pos_x as int, self.pos_y as int, 0, 1) + ray(
            self.pos_x as int,
            self.pos_y as int,
            0,
            -1,
        )
    }

    open spec fn placed_at(&self, x: usize, y: usize) -> Rook {
        Rook { pos_x: x, pos_y: y, piece_color: self.piece_color, has_moved: self.has_moved }
    }

    fn get_pos(&self) -> (pos: (usize, usize)) {
        (self.pos_x, self.pos_y)
    }

    fn set_pos(&mut self, x_coord: usize, y_coord: usize) {
        self.pos_x = x_coord;
        self.pos_y = y_coord;
    }

    fn can_move(&self, x_coord: usize, y_coord: usize, quick_board: &Vec<Vec<QuickPiece>>) -> (can:
        bool) {
        if !coord_on_board(x_coord, y_coord, quick_board) {
            return false;
        }
        if !coord_on_board(self.pos_x, self.pos_y, quick_board) {
            return false;
        }
        if x_coord == self.pos_x && y_coord == self.pos_y {
            return false;
        }
        if !movement::is_move_horizontal_vertical(
            self.pos_x,
            self.pos_y,
            x_coord,
            y_coord,
            quick_board.as_slice(),
        ) {
            return false;
        }
        if movement::check_if_pieces_in_path_horizontal_vertical(
            self.pos_x,
            self.pos_y,
            x_coord,
            y_coord,
            quick_board.as_slice(),
        ) {
            return false;
        }
        can_land_on(x_coord, y_coord, self.piece_color, quick_board)
    }

    fn moves_on_board(&self) -> (moves: Vec<(usize, usize)>) {
        let mut moves_vector: Vec<(usize, usize)> = Vec::new();
        movement::push_ray(&mut moves_vector, self.pos_x, self.pos_y, 1, 0);
        movement::push_ray(&mut moves_vector, self.pos_x, self.pos_y, -1, 0);
        movement::push_ray(&mut moves_vector, self.pos_x, self.pos_y, 0, 1);
        movement::push_ray(&mut moves_vector, self.pos_x, self.pos_y, 0, -1);
        assert(moves_vector@ =~= self.reachable());
        moves_vector
    }
}

} // verus!
