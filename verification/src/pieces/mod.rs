//! The six kinds of piece and what they have in common: where a piece can
//! move on a given grid, and which squares the shape of its movement allows.
pub mod bishop;
pub mod king;
pub mod knight;
pub mod movement;
pub mod pawn;
pub mod queen;
pub mod rook;

use crate::piece_types::{PieceColor, QuickPiece};
use crate::pieces::bishop::Bishop;
use crate::pieces::king::King;
use crate::pieces::knight::Knight;
use crate::pieces::pawn::Pawn;
use crate::pieces::queen::Queen;
use crate::pieces::rook::Rook;
use vstd::prelude::*;

verus! {

/// The grid as a value: `grid[x][y]` is what stands on file `x`, rank `y`.
pub type Grid = Seq<Seq<QuickPiece>>;

/// The grid that a vector of files stands for.
pub open spec fn grid_view(files: Seq<Vec<QuickPiece>>) -> Grid {
    Seq::new(files.len(), |x: int| files[x]@)
}

/// A grid of eight files of eight ranks.
pub open spec fn is_chess_grid(grid: Grid) -> bool {
    &&& grid.len() == 8
    &&& forall|x: int| 0 <= x < 8 ==> (#[trigger] grid[x]).len() == 8
}

/// Eight files of eight ranks each.
pub open spec fn is_chess_board(files: Seq<Vec<QuickPiece>>) -> bool {
    &&& files.len() == 8
    &&& forall|x: int| 0 <= x < 8 ==> (#[trigger] files[x]).len() == 8
}

/// Eight files of eight ranks stand for a grid of eight by eight.
pub proof fn lemma_chess_board_grid(files: Seq<Vec<QuickPiece>>)
    ensures
        is_chess_board(files) <==> is_chess_grid(grid_view(files)),
{
    if is_chess_board(files) {
        assert forall|x: int| 0 <= x < 8 implies (#[trigger] grid_view(files)[x]).len() == 8 by {
            assert(files[x].len() == 8);
        }
    }
    if is_chess_grid(grid_view(files)) {
        assert forall|x: int| 0 <= x < 8 implies (#[trigger] files[x]).len() == 8 by {
            assert(grid_view(files)[x].len() == 8);
        }
    }
}

/// Whether file `x`, rank `y` is a square of the board.
pub open spec fn on_board(x: int, y: int) -> bool {
    0 <= x < 8 && 0 <= y < 8
}

/// How far apart two files, or two ranks, are.
pub open spec fn distance(a: int, b: int) -> int {
    if a >= b {
        a - b
    } else {
        b - a
    }
}

/// The grid with one square rewritten.
pub open spec fn grid_with(grid: Grid, x: int, y: int, content: QuickPiece) -> Grid {
    grid.update(x, grid[x].update(y, content))
}

/// The common capability contract of the six kinds of piece.
pub trait PieceMove: Sized {
    /// The square on which the piece stands.
    spec fn square(&self) -> (usize, usize);

    /// Whether the piece, standing where it stands, can move to file `x`,
    /// rank `y` of `grid`: both squares are on the board, the step has the
    /// shape of the piece's movement, nothing stands in between, and no
    /// piece of its own side stands on the destination.
    spec fn reaches(&self, x: int, y: int, grid: Grid) -> bool;

    /// Every square that the shape of the piece's movement allows from
    /// where it stands, whatever stands on the board.
    spec fn reachable(&self) -> Seq<(usize, usize)>;

    /// The same piece on another square.
    spec fn placed_at(&self, x: usize, y: usize) -> Self;

    /// Whether the piece can move to the given square of the board.
    fn can_move(
        &self,
        x_coord: usize,
        y_coord: usize,
        quick_board: &Vec<Vec<QuickPiece>>,
    ) -> (can: bool)
        requires
            is_chess_board(quick_board@),
        ensures
            can == self.reaches(x_coord as int, y_coord as int, grid_view(quick_board@)),
    ;

    /// The squares that the shape of the piece's movement allows.
    fn moves_on_board(&self) -> (moves: Vec<(usize, usize)>)
        ensures
            moves@ == self.reachable(),
    ;

    /// The square on which the piece stands.
    fn get_pos(&self) -> (pos: (usize, usize))
        ensures
            pos == self.square(),
    ;

    /// Puts the piece on another square.
    fn set_pos(&mut self, x_coord: usize, y_coord: usize)
        ensures
            *final(self) == old(self).placed_at(x_coord, y_coord),
    ;
}

/// A piece of any of the six kinds.
#[derive(Copy, Clone, Debug, PartialEq, Eq, Structural)]
pub enum AnyPiece {
    King(King),
    Queen(Queen),
    Bishop(Bishop),
    Knight(Knight),
    Rook(Rook),
    Pawn(Pawn),
}

impl AnyPiece {
    /// The side to which the piece belongs.
    pub open spec fn side(self) -> PieceColor {
        match self {
            AnyPiece::King(p) => p.piece_color,
            AnyPiece::Queen(p) => p.piece_color,
            AnyPiece::Bishop(p) => p.piece_color,
            AnyPiece::Knight(p) => p.piece_color,
            AnyPiece::Rook(p) => p.piece_color,
            AnyPiece::Pawn(p) => p.piece_color,
        }
    }

    /// The letter by which move notation names the kind of the piece.
    pub open spec fn letter(self) -> char {
        match self {
            AnyPiece::King(_) => 'K',
            AnyPiece::Queen(_) => 'Q',
            AnyPiece::Bishop(_) => 'B',
            AnyPiece::Knight(_) => 'N',
            AnyPiece::Rook(_) => 'R',
            AnyPiece::Pawn(_) => 'P',
        }
    }

    /// What the grid shows on the square of this piece.
    pub open spec fn content(self) -> QuickPiece {
        if self is King {
            QuickPiece::KING(self.side())
        } else {
            QuickPiece::PIECE(self.side())
        }
    }

    /// Whether the piece stands on a square of the board.
    pub open spec fn placed(self) -> bool {
        on_board(self.square().0 as int, self.square().1 as int)
    }

    /// Whether the piece stands on file `x`, rank `y`.
    pub open spec fn stands_on(self, x: int, y: int) -> bool {
        self.square().0 == x && self.square().1 == y
    }

    /// A piece of the kind that `letter` names, on the given square.
    pub open spec fn of_letter(letter: char, x: usize, y: usize, color: PieceColor) -> Option<
        AnyPiece,
    > {
        if letter == 'K' {
            Some(AnyPiece::King(King { pos_x: x, pos_y: y, piece_color: color, has_moved: false }))
        } else if letter == 'Q' {
            Some(AnyPiece::Queen(Queen { pos_x: x, pos_y: y, piece_color: color }))
        } else if letter == 'B' {
            Some(AnyPiece::Bishop(Bishop { pos_x: x, pos_y: y, piece_color: color }))
        } else if letter == 'N' {
            Some(AnyPiece::Knight(Knight { pos_x: x, pos_y: y, piece_color: color }))
        } else if letter == 'R' {
            Some(AnyPiece::Rook(Rook { pos_x: x, pos_y: y, piece_color: color, has_moved: false }))
        } else if letter == 'P' {
            Some(
                AnyPiece::Pawn(
                    Pawn { pos_x: x, pos_y: y, piece_color: color, starting_y_position: y },
                ),
            )
        } else {
            None
        }
    }

    /// The piece that a letter names, if it names one.
    pub fn from_letter(
        letter: char,
        x_coord: usize,
        y_coord: usize,
        new_piece_color: PieceColor,
    ) -> (piece: Option<AnyPiece>)
        ensures
            piece == AnyPiece::of_letter(letter, x_coord, y_coord, new_piece_color),
    {
        if letter == 'K' {
            Some(AnyPiece::King(King::new(x_coord, y_coord, new_piece_color)))
        } else if letter == 'Q' {
            Some(AnyPiece::Queen(Queen::new(x_coord, y_coord, new_piece_color)))
        } else if letter == 'B' {
            Some(AnyPiece::Bishop(Bishop::new(x_coord, y_coord, new_piece_color)))
        } else if letter == 'N' {
            Some(AnyPiece::Knight(Knight::new(x_coord, y_coord, new_piece_color)))
        } else if letter == 'R' {
            Some(AnyPiece::Rook(Rook::new(x_coord, y_coord, new_piece_color)))
        } else if letter == 'P' {
            Some(AnyPiece::Pawn(Pawn::new(x_coord, y_coord, new_piece_color)))
        } else {
            None
        }
    }

    /// The piece that the first character of `piece_symbol_string` names.
    pub fn from_piece_character(
        piece_symbol_string: &String,
        x_coord: usize,
        y_coord: usize,
        new_piece_color: PieceColor,
    ) -> (piece: AnyPiece)
        requires
            piece_symbol_string@.len() > 0,
            AnyPiece::of_letter(piece_symbol_string@[0], x_coord, y_coord, new_piece_color) is Some,
        ensures
            Some(piece) == AnyPiece::of_letter(
                piece_symbol_string@[0],
                x_coord,
                y_coord,
                new_piece_color,
            ),
    {
        let piece_symbol_char = piece_symbol_string.as_str().get_char(0);
        match AnyPiece::from_letter(piece_symbol_char, x_coord, y_coord, new_piece_color) {
            Some(piece) => piece,
            None => AnyPiece::Queen(Queen::new(x_coord, y_coord, new_piece_color)),
        }
    }

    /// The side to which the piece belongs.
    pub fn get_color(&self) -> (color: PieceColor)
        ensures
            color == self.side(),
    {
        match self {
            AnyPiece::King(king) => king.piece_color,
            AnyPiece::Queen(queen) => queen.piece_color,
            AnyPiece::Bishop(bishop) => bishop.piece_color,
            AnyPiece::Knight(knight) => knight.piece_color,
            AnyPiece::Rook(rook) => rook.piece_color,
            AnyPiece::Pawn(pawn) => pawn.piece_color,
        }
    }

    /// The letter of the piece's kind.
    pub fn get_letter(&self) -> (letter: char)
        ensures
            letter == self.letter(),
    {
        match self {
            AnyPiece::King(_) => 'K',
            AnyPiece::Queen(_) => 'Q',
            AnyPiece::Bishop(_) => 'B',
            AnyPiece::Knight(_) => 'N',
            AnyPiece::Rook(_) => 'R',
            AnyPiece::Pawn(_) => 'P',
        }
    }

    /// What the grid shows on the square of this piece.
    pub fn quick_piece(&self) -> (content: QuickPiece)
        ensures
            content == self.content(),
    {
        match self {
            AnyPiece::King(king) => QuickPiece::KING(king.piece_color),
            _ => QuickPiece::PIECE(self.get_color()),
        }
    }
}

impl PieceMove for AnyPiece {
    open spec fn square(&self) -> (usize, usize) {
        match self {
            AnyPiece::King(p) => p.square(),
            AnyPiece::Queen(p) => p.square(),
            AnyPiece::Bishop(p) => p.square(),
            AnyPiece::Knight(p) => p.square(),
            AnyPiece::Rook(p) => p.square(),
            AnyPiece::Pawn(p) => p.square(),
        }
    }

    open spec fn reaches(&self, x: int, y: int, grid: Grid) -> bool {
        match self {
            AnyPiece::King(p) => p.reaches(x, y, grid),
            AnyPiece::Queen(p) => p.reaches(x, y, grid),
            AnyPiece::Bishop(p) => p.reaches(x, y, grid),
            AnyPiece::Knight(p) => p.reaches(x, y, grid),
            AnyPiece::Rook(p) => p.reaches(x, y, grid),
            AnyPiece::Pawn(p) => p.reaches(x, y, grid),
        }
    }

    open spec fn reachable(&self) -> Seq<(usize, usize)> {
        match self {
            AnyPiece::King(p) => p.reachable(),
            AnyPiece::Queen(p) => p.reachable(),
            AnyPiece::Bishop(p) => p.reachable(),
            AnyPiece::Knight(p) => p.reachable(),
            AnyPiece::Rook(p) => p.reachable(),
            AnyPiece::Pawn(p) => p.reachable(),
        }
    }

    open spec fn placed_at(&self, x: usize, y: usize) -> AnyPiece {
        match self {
            AnyPiece::King(p) => AnyPiece::King(p.placed_at(x, y)),
            AnyPiece::Queen(p) => AnyPiece::Queen(p.placed_at(x, y)),
            AnyPiece::Bishop(p) => AnyPiece::Bishop(p.placed_at(x, y)),
            AnyPiece::Knight(p) => AnyPiece::Knight(p.placed_at(x, y)),
            AnyPiece::Rook(p) => AnyPiece::Rook(p.placed_at(x, y)),
            AnyPiece::Pawn(p) => AnyPiece::Pawn(p.placed_at(x, y)),
        }
    }

    fn can_move(&self, x_coord: usize, y_coord: usize, quick_board: &Vec<Vec<QuickPiece>>) -> (can:
        bool) {
        match self {
            AnyPiece::King(king) => king.can_move(x_coord, y_coord, quick_board),
            AnyPiece::Queen(queen) => queen.can_move(x_coord, y_coord, quick_board),
            AnyPiece::Bishop(bishop) => bishop.can_move(x_coord, y_coord, quick_board),
            AnyPiece::Knight(knight) => knight.can_move(x_coord, y_coord, quick_board),
            AnyPiece::Rook(rook) => rook.can_move(x_coord, y_coord, quick_board),
            AnyPiece::Pawn(pawn) => pawn.can_move(x_coord, y_coord, quick_board),
        }
    }

    fn set_pos(&mut self, x_coord: usize, y_coord: usize) {
        match self {
            AnyPiece::King(king) => king.set_pos(x_coord, y_coord),
            AnyPiece::Queen(queen) => queen.set_pos(x_coord, y_coord),
            AnyPiece::Bishop(bishop) => bishop.set_pos(x_coord, y_coord),
            AnyPiece::Knight(knight) => knight.set_pos(x_coord, y_coord),
            AnyPiece::Rook(rook) => rook.set_pos(x_coord, y_coord),
            AnyPiece::Pawn(pawn) => pawn.set_pos(x_coord, y_coord),
        }
    }

    fn get_pos(&self) -> (pos: (usize, usize)) {
        match self {
            AnyPiece::King(king) => king.get_pos(),
            AnyPiece::Queen(queen) => queen.get_pos(),
            AnyPiece::Bishop(bishop) => bishop.get_pos(),
            AnyPiece::Knight(knight) => knight.get_pos(),
            AnyPiece::Rook(rook) => rook.get_pos(),
            AnyPiece::Pawn(pawn) => pawn.get_pos(),
        }
    }

    fn moves_on_board(&self) -> (moves: Vec<(usize, usize)>) {
        match self {
            AnyPiece::King(king) => king.moves_on_board(),
            AnyPiece::Queen(queen) => queen.moves_on_board(),
            AnyPiece::Bishop(bishop) => bishop.moves_on_board(),
            AnyPiece::Knight(knight) => knight.moves_on_board(),
            AnyPiece::Rook(rook) => rook.moves_on_board(),
            AnyPiece::Pawn(pawn) => pawn.moves_on_board(),
        }
    }
}

/// Whether file `x_coord`, rank `y_coord` lies inside `quick_board`, whose
/// first file gives the number of ranks.
pub fn coord_on_board(
    x_coord: usize,
    y_coord: usize,
    quick_board: &Vec<Vec<QuickPiece>>,
) -> (inside: bool)
    ensures
        inside == (quick_board@.len() > 0 && x_coord < quick_board@.len() && y_coord
            < quick_board@[0]@.len()),
        is_chess_board(quick_board@) ==> inside == on_board(
            x_coord as int,
            y_coord as int,
        ),
{
    if quick_board.len() == 0 {
        return false;
    }
    let y_length = quick_board[0].len();
    if x_coord >= quick_board.len() || y_coord >= y_length {
        return false;
    }
    true
}

/// Whether a piece of either side stands on the given square.
pub fn check_if_piece_on_location(
    x_coord: usize,
    y_coord: usize,
    quick_board: &Vec<Vec<QuickPiece>>,
) -> (found: bool)
    requires
        is_chess_board(quick_board@),
        on_board(x_coord as int, y_coord as int),
    ensures
        found == grid_view(quick_board@)[x_coord as int][y_coord as int].occupied(),
{
    match quick_board[x_coord][y_coord] {
        QuickPiece::PIECE(_) => true,
        QuickPiece::KING(_) => true,
        QuickPiece::EMPTY => false,
    }
}

/// Whether the destination of a move is free for a piece of `color`: it is
/// empty, or a piece of the other side stands there to be captured.
pub open spec fn may_land(grid: Grid, x: int, y: int, color: PieceColor) -> bool {
    !grid[x][y].holds(color)
}

/// Whether no piece of `piece_color` stands on the given square.
pub fn can_land_on(
    x_coord: usize,
    y_coord: usize,
    piece_color: PieceColor,
    quick_board: &Vec<Vec<QuickPiece>>,
) -> (free: bool)
    requires
        is_chess_board(quick_board@),
        on_board(x_coord as int, y_coord as int),
    ensures
        free == may_land(grid_view(quick_board@), x_coord as int, y_coord as int, piece_color),
{
    match quick_board[x_coord][y_coord] {
        QuickPiece::PIECE(color) => !(color == piece_color),
        QuickPiece::KING(color) => !(color == piece_color),
        QuickPiece::EMPTY => true,
    }
}

/// How far apart two files, or two ranks, are.
pub fn delta(a: usize, b: usize) -> (d: usize)
    ensures
        d == distance(a as int, b as int),
{
    if a >= b {
        a - b
    } else {
        b - a
    }
}

} // verus!
