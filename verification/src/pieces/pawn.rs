//! The pawn.
use crate::piece_types::{PieceColor, QuickPiece};
use crate::pieces::movement;
use crate::pieces::movement::with_offset;
use crate::pieces::PieceMove;
use crate::pieces::{coord_on_board, delta, distance, on_board, Grid};
use vstd::prelude::*;

verus! {

/// A pawn: its square and its side.
#[derive(Copy, Clone, Debug, PartialEq, Eq, Structural)]
pub struct Pawn {
    pub pos_x: usize,
    pub pos_y: usize,
    pub piece_color: PieceColor,
    /// The rank on which the pawn was set up; only from there may it
    /// advance by two.
    pub starting_y_position: usize,
}

impl Pawn {
    /// A pawn set up on the given square.
    pub fn new(pos_x: usize, pos_y: usize, piece_color: PieceColor) -> (pawn: Pawn)
        ensures
            pawn == (Pawn { pos_x, pos_y, piece_color, starting_y_position: pos_y }),
    {
        let starting_y_position = pos_y;
        Pawn { pos_x, pos_y, piece_color, starting_y_position }
    }

    /// Whether the pawn has left the rank on which the pawns of its side
    /// start a game.
    pub open spec fn left_pawn_rank(&self) -> bool {
        self.pos_y != self.piece_color.pawn_rank()
    }

    /// Whether rank `y` lies at least one step ahead of the pawn.
    pub open spec fn ahead(&self, y: int) -> bool {
        match self.piece_color {
            PieceColor::WHITE => y - self.pos_y >= 1,
            PieceColor::BLACK => y - self.pos_y <= -1,
        }
    }

    /// A step straight ahead onto an empty square.
    pub open spec fn advances(&self, x: int, y: int, grid: Grid) -> bool {
        &&& x == self.pos_x
        &&& y == self.pos_y + self.piece_color.forward()
        &&& !grid[x][y].occupied()
    }

    /// Two steps straight ahead from the rank on which the pawn was set up,
    /// over an empty square onto an empty square.
    pub open spec fn advances_twice(&self, x: int, y: int, grid: Grid) -> bool {
        &&& x == self.pos_x
        &&& y == self.pos_y + 2 * self.piece_color.forward()
        &&& self.pos_y == self.starting_y_position
        &&& !grid[x][self.pos_y + self.piece_color.forward()].occupied()
        &&& !grid[x][y].occupied()
    }

    /// One step diagonally ahead onto a piece of the other side.
    pub open spec fn captures(&self, x: int, y: int, grid: Grid) -> bool {
        &&& distance(x, self.pos_x as int) == 1
        &&& y == self.pos_y + self.piece_color.forward()
        &&& grid[x][y].holds(self.piece_color.opposite())
    }

    /// Whether the pawn has left the rank on which the pawns of its side
    /// start a game.
    pub fn has_moved(&self) -> (moved: bool)
        ensures
            moved == self.left_pawn_rank(),
    {
        match self.piece_color {
            PieceColor::WHITE => self.pos_y != 1,
            PieceColor::BLACK => self.pos_y != 6,
        }
    }

    /// Whether rank `y_coord` lies ahead of the pawn.
    pub fn is_moving_forward(&self, y_coord: usize) -> (forward: bool)
        ensures
            forward == self.ahead(y_coord as int),
    {
        match self.piece_color {
            PieceColor::WHITE => y_coord > self.pos_y,
            PieceColor::BLACK => y_coord < self.pos_y,
        }
    }
}

impl PieceMove for Pawn {
    open spec fn square(&self) -> (usize, usize) {
        (self.pos_x, self.pos_y)
    }

    /// A pawn advances onto empty squares and captures diagonally; a
    /// diagonal step onto an empty square is no move of the pawn itself.
    open spec fn reaches(&self, x: int, y: int, grid: Grid) -> bool {
        &&& on_board(self.pos_x as int, self.pos_y as int)
        &&& on_board(x, y)
        &&& (self.advances(x, y, grid) || self.advances_twice(x, y, grid) || self.captures(
            x,
            y,
            grid,
        ))
    }

    /// The step ahead, the diagonal steps to the left and to the right,
    /// and the double step while the pawn stands on the pawn rank of its
    /// side; each where it ends on the board.
    open spec fn reachable(&self) -> Seq<(usize, usize)> {
        let x = self.pos_x as int;
        let y = self.pos_y as int;
        let f = self.piece_color.forward();
        let s0 = with_offset(Seq::empty(), x, y, 0, f);
        let s1 = with_offset(s0, x, y, -1, f);
        let s2 = with_offset(s1, x, y, 1, f);
        if self.left_pawn_rank() {
            s2
        } else {
            with_offset(s2, x, y, 0, 2 * f)
        }
    }

    open spec fn placed_at(&self, x: usize, y: usize) -> Pawn {
        Pawn {
            pos_x: x,
            pos_y: y,
            piece_color: self.piece_color,
            starting_y_position: self.starting_y_position,
        }
    }

    fn get_pos(&self) -> (pos: (usize, usize)) {
        (self.pos_x, self.pos_y)
    }

    fn set_pos(&mut self, x_coord: usize, y_coord: usize) {
        self.pos_x = x_coord;
        self.pos_y = y_coord;
    }

    fn can_move(&self, x_coord: usize, y_coord: usize, quick_board: &Vec<Vec<QuickPiece>>) -> (can:
        bool) {
        if !coord_on_board(x_coord, y_coord, quick_board) {
            return false;
        }
        if !coord_on_board(self.pos_x, self.pos_y, quick_board) {
            return false;
        }
        if !self.is_moving_forward(y_coord) {
            return false;
        }
        let x_delta = delta(self.pos_x, x_coord);
        if x_delta > 1 {
            return false;
        }
        let y_delta = delta(self.pos_y, y_coord);
        if y_delta > 2 {
            return false;
        }
        if y_delta == 2 {
            if x_delta != 0 || self.pos_y != self.starting_y_position {
                return false;
            }
            let between = if y_coord > self.pos_y {
                y_coord - 1
            } else {
                self.pos_y - 1
            };
            match quick_board[x_coord][between] {
                QuickPiece::PIECE(_) => return false,
                QuickPiece::KING(_) => return false,
                QuickPiece::EMPTY => (),
            };
        }
        if x_delta == 1 {
            match quick_board[x_coord][y_coord] {
                QuickPiece::PIECE(color) => color != self.piece_color,
                QuickPiece::KING(color) => color != self.piece_color,
                QuickPiece::EMPTY => false,
            }
        } else {
            match quick_board[x_coord][y_coord] {
                QuickPiece::PIECE(_) => false,
                QuickPiece::KING(_) => false,
                QuickPiece::EMPTY => true,
            }
        }
    }

    fn moves_on_board(&self) -> (moves: Vec<(usize, usize)>) {
        let mut possible_moves: Vec<(usize, usize)> = Vec::new();
        let ahead: i8 = match self.piece_color {
            PieceColor::WHITE => 1,
            PieceColor::BLACK => -1,
        };
        movement::push_offset(&mut possible_moves, self.pos_x, self.pos_y, 0, ahead);
        movement::push_offset(&mut possible_moves, self.pos_x, self.pos_y, -1, ahead);
        movement::push_offset(&mut possible_moves, self.pos_x, self.pos_y, 1, ahead);
        if !self.has_moved() {
            movement::push_offset(&mut possible_moves, self.pos_x, self.pos_y, 0, 2 * ahead);
        }
        possible_moves
    }
}

} // verus!
