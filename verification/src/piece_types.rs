//! The two sides, and what a square of the grid shows.
use vstd::prelude::*;

verus! {

/// The two sides of a game.
#[derive(Debug, PartialEq, Eq, Structural, Clone, Copy, Hash)]
pub enum PieceColor {
    WHITE,
    BLACK,
}

/// What stands on one square of the grid. A king is told apart from the
/// other pieces so that it can be recognised without looking at the live
/// piece lists.
#[derive(Debug, PartialEq, Eq, Structural, Clone, Copy, Hash)]
pub enum QuickPiece {
    PIECE(PieceColor),
    EMPTY,
    KING(PieceColor),
}

impl PieceColor {
    /// The other side.
    pub open spec fn opposite(self) -> PieceColor {
        match self {
            PieceColor::WHITE => PieceColor::BLACK,
            PieceColor::BLACK => PieceColor::WHITE,
        }
    }

    /// The direction in which a pawn of this side advances: up the ranks
    /// for white, down for black.
    pub open spec fn forward(self) -> int {
        match self {
            PieceColor::WHITE => 1,
            PieceColor::BLACK => -1,
        }
    }

    /// The rank on which the pawns of this side start.
    pub open spec fn pawn_rank(self) -> int {
        match self {
            PieceColor::WHITE => 1,
            PieceColor::BLACK => 6,
        }
    }

    /// The rank on which a pawn of this side is promoted.
    pub open spec fn back_rank(self) -> int {
        match self {
            PieceColor::WHITE => 7,
            PieceColor::BLACK => 0,
        }
    }

    /// The rank on which the pieces of this side start.
    pub open spec fn home_rank(self) -> int {
        match self {
            PieceColor::WHITE => 0,
            PieceColor::BLACK => 7,
        }
    }

    /// The rank on which a pawn of this side lands when it captures en
    /// passant.
    pub open spec fn passing_rank(self) -> int {
        match self {
            PieceColor::WHITE => 5,
            PieceColor::BLACK => 2,
        }
    }

    /// The other side.
    pub fn opposite_color(piece_color: &PieceColor) -> (other: PieceColor)
        ensures
            other == piece_color.opposite(),
    {
        match piece_color {
            PieceColor::BLACK => PieceColor::WHITE,
            PieceColor::WHITE => PieceColor::BLACK,
        }
    }
}

impl QuickPiece {
    /// Whether a piece of either side stands here.
    pub open spec fn occupied(self) -> bool {
        self != QuickPiece::EMPTY
    }

    /// Whether a piece of the given side stands here.
    pub open spec fn holds(self, color: PieceColor) -> bool {
        self == QuickPiece::PIECE(color) || self == QuickPiece::KING(color)
    }

    /// Whether a piece stands here, and of which side.
    pub fn color(&self) -> (side: Option<PieceColor>)
        ensures
            side is Some <==> self.occupied(),
            side matches Some(c) ==> self.holds(c),
    {
        match self {
            QuickPiece::PIECE(c) => Some(*c),
            QuickPiece::KING(c) => Some(*c),
            QuickPiece::EMPTY => None,
        }
    }
}

} // verus!
