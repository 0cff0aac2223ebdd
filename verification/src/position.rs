//! A position as a mathematical value, and what it means for its grid and
//! its lists of live pieces to agree.
use crate::piece_types::{PieceColor, QuickPiece};
use crate::pieces::{grid_with, is_chess_grid, on_board, AnyPiece, Grid, PieceMove};
use std::collections::hash_map::DefaultHasher;
use vstd::prelude::*;
use vstd::std_specs::hash::DefaultHasherAdditionalSpecFns;

verus! {

/// One entry of the log of played moves, as a value.
pub struct PlayedMoveView {
    pub piece: Seq<char>,
    pub start: (usize, usize),
    pub end: (usize, usize),
    pub color: PieceColor,
    pub promotion: Option<Seq<char>>,
}

/// A position as a value: the grid, the live pieces of each side, the
/// cached squares of the kings, whose move was last, the log of played
/// moves, and how often each fingerprint of a position has occurred.
pub struct BoardView {
    pub grid: Grid,
    pub white: Seq<AnyPiece>,
    pub black: Seq<AnyPiece>,
    pub white_king: (usize, usize),
    pub black_king: (usize, usize),
    pub last_move_color: PieceColor,
    pub moves: Seq<PlayedMoveView>,
    pub counts: Map<u64, usize>,
}

/// Whether no piece of the list stands on file `x`, rank `y`.
pub open spec fn none_at(pieces: Seq<AnyPiece>, x: int, y: int) -> bool {
    forall|j: int| 0 <= j < pieces.len() ==> !(#[trigger] pieces[j]).stands_on(x, y)
}

/// Whether `i` is the first place of the list whose piece stands on file
/// `x`, rank `y`.
pub open spec fn is_first_at(pieces: Seq<AnyPiece>, i: int, x: int, y: int) -> bool {
    &&& 0 <= i < pieces.len()
    &&& pieces[i].stands_on(x, y)
    &&& forall|j: int| 0 <= j < i ==> !(#[trigger] pieces[j]).stands_on(x, y)
}

/// The first place of the list whose piece stands on file `x`, rank `y`.
pub open spec fn find_at(pieces: Seq<AnyPiece>, x: int, y: int) -> Option<int> {
    if exists|i: int| is_first_at(pieces, i, x, y) {
        Some(choose|i: int| is_first_at(pieces, i, x, y))
    } else {
        None
    }
}

/// The first place is the only first place.
pub proof fn lemma_find_at_first(pieces: Seq<AnyPiece>, i: int, x: int, y: int)
    requires
        is_first_at(pieces, i, x, y),
    ensures
        find_at(pieces, x, y) == Some(i),
{
    let c = choose|c: int| is_first_at(pieces, c, x, y);
    if c < i {
        assert(!pieces[c].stands_on(x, y));
    }
    if i < c {
        assert(!pieces[i].stands_on(x, y));
    }
}

/// Where no piece stands on the square, none is found.
pub proof fn lemma_find_at_none(pieces: Seq<AnyPiece>, x: int, y: int)
    ensures
        find_at(pieces, x, y) is None <==> none_at(pieces, x, y),
        find_at(pieces, x, y) matches Some(i) ==> is_first_at(pieces, i, x, y),
{
    if none_at(pieces, x, y) {
        assert forall|i: int| !is_first_at(pieces, i, x, y) by {
            if 0 <= i < pieces.len() {
                assert(!pieces[i].stands_on(x, y));
            }
        }
    } else {
        let j = choose|j: int| 0 <= j < pieces.len() && (#[trigger] pieces[j]).stands_on(x, y);
        lemma_first_exists(pieces, j, x, y);
    }
}

/// Below a piece that stands on the square there is a first one.
proof fn lemma_first_exists(pieces: Seq<AnyPiece>, j: int, x: int, y: int)
    requires
        0 <= j < pieces.len(),
        pieces[j].stands_on(x, y),
    ensures
        exists|i: int| is_first_at(pieces, i, x, y),
    decreases j,
{
    if forall|k: int| 0 <= k < j ==> !(#[trigger] pieces[k]).stands_on(x, y) {
        assert(is_first_at(pieces, j, x, y));
    } else {
        let k = choose|k: int| 0 <= k < j && (#[trigger] pieces[k]).stands_on(x, y);
        lemma_first_exists(pieces, k, x, y);
    }
}

/// Whether one of the pieces can move to file `x`, rank `y` of the grid.
pub open spec fn attacked(grid: Grid, pieces: Seq<AnyPiece>, x: int, y: int) -> bool {
    exists|i: int| 0 <= i < pieces.len() && (#[trigger] pieces[i]).reaches(x, y, grid)
}

/// A pawn as a game sets it up: it started from the pawn rank of its side.
pub open spec fn pawn_from_pawn_rank(piece: AnyPiece) -> bool {
    piece matches AnyPiece::Pawn(pawn) ==> pawn.starting_y_position
        == pawn.piece_color.pawn_rank()
}

/// Every piece of the list stands on the board and belongs to `color`,
/// and its pawns started from the pawn rank.
pub open spec fn pieces_valid(pieces: Seq<AnyPiece>, color: PieceColor) -> bool {
    forall|i: int|
        0 <= i < pieces.len() ==> {
            &&& (#[trigger] pieces[i]).placed()
            &&& pieces[i].side() == color
            &&& pawn_from_pawn_rank(pieces[i])
        }
}

/// No two pieces of the list stand on one square.
pub open spec fn distinct_squares(pieces: Seq<AnyPiece>) -> bool {
    forall|i: int, j: int|
        0 <= i < j < pieces.len() ==> (#[trigger] pieces[i]).square() != (
        #[trigger] pieces[j]).square()
}

/// The grid shows each piece of the list on its square.
pub open spec fn shown(grid: Grid, pieces: Seq<AnyPiece>) -> bool {
    forall|i: int|
        0 <= i < pieces.len() ==> grid[(#[trigger] pieces[i]).square().0 as int][pieces[i].square().1 as int]
            == pieces[i].content()
}

/// Whatever the grid shows of `color` is a piece of the list.
pub open spec fn backed(grid: Grid, pieces: Seq<AnyPiece>, color: PieceColor) -> bool {
    forall|x: int, y: int|
        on_board(x, y) && (#[trigger] grid[x][y]).holds(color) ==> !none_at(pieces, x, y)
}

/// Every king of the list stands on the cached square.
pub open spec fn kings_cached(pieces: Seq<AnyPiece>, cached: (usize, usize)) -> bool {
    forall|i: int|
        0 <= i < pieces.len() && (#[trigger] pieces[i]) is King ==> pieces[i].square() == cached
}

/// The number that stands for the kind of a piece in a fingerprint.
pub open spec fn kind_code(piece: AnyPiece) -> u8 {
    match piece {
        AnyPiece::King(_) => 1,
        AnyPiece::Queen(_) => 2,
        AnyPiece::Bishop(_) => 3,
        AnyPiece::Knight(_) => 4,
        AnyPiece::Rook(_) => 5,
        AnyPiece::Pawn(_) => 6,
    }
}

/// The number that stands for what the lists hold on a square: 0 for
/// nothing, 1 to 6 for a white piece by its kind, 7 to 12 for a black one.
pub open spec fn square_code(white: Seq<AnyPiece>, black: Seq<AnyPiece>, x: int, y: int) -> u8 {
    match find_at(white, x, y) {
        Some(i) => kind_code(white[i]),
        None => match find_at(black, x, y) {
            Some(j) => (6 + kind_code(black[j])) as u8,
            None => 0,
        },
    }
}

/// The placement of the live pieces, square by square: file by file, and
/// within a file rank by rank. It does not depend on the order of the
/// lists where no two pieces share a square, and says nothing of whose
/// turn it is, of the right to castle or of a capture en passant.
pub open spec fn placement(white: Seq<AnyPiece>, black: Seq<AnyPiece>) -> Seq<u8> {
    Seq::new(64, |i: int| square_code(white, black, i / 8, i % 8))
}

/// How often a fingerprint has occurred once it occurs again.
pub open spec fn bumped(counts: Map<u64, usize>, hash: u64) -> usize {
    if !counts.contains_key(hash) {
        1
    } else if counts[hash] < usize::MAX {
        (counts[hash] + 1) as usize
    } else {
        usize::MAX
    }
}

/// Whether some fingerprint has occurred three times.
pub open spec fn thrice(counts: Map<u64, usize>) -> bool {
    exists|hash: u64| counts.contains_key(hash) && #[trigger] counts[hash] >= 3
}

impl BoardView {
    /// The fingerprint of the position: the hash of the placement of its
    /// live pieces.
    pub open spec fn fingerprint(self) -> u64 {
        DefaultHasher::spec_finish(seq![placement(self.white, self.black)])
    }

    /// The position with its fingerprint counted once more.
    pub open spec fn counted(self) -> BoardView {
        BoardView {
            counts: self.counts.insert(self.fingerprint(), bumped(self.counts, self.fingerprint())),
            ..self
        }
    }

    /// The live pieces of one side.
    pub open spec fn pieces(self, color: PieceColor) -> Seq<AnyPiece> {
        match color {
            PieceColor::WHITE => self.white,
            PieceColor::BLACK => self.black,
        }
    }

    /// The cached square of the king of one side.
    pub open spec fn king_square(self, color: PieceColor) -> (usize, usize) {
        match color {
            PieceColor::WHITE => self.white_king,
            PieceColor::BLACK => self.black_king,
        }
    }

    /// The side that is to move.
    pub open spec fn to_move(self) -> PieceColor {
        self.last_move_color.opposite()
    }

    /// The position with another grid.
    pub open spec fn with_grid(self, grid: Grid) -> BoardView {
        BoardView { grid, ..self }
    }

    /// The position with another list of live pieces for one side.
    pub open spec fn with_pieces(self, color: PieceColor, pieces: Seq<AnyPiece>) -> BoardView {
        match color {
            PieceColor::WHITE => BoardView { white: pieces, ..self },
            PieceColor::BLACK => BoardView { black: pieces, ..self },
        }
    }

    /// The position with another cached square for the king of one side.
    pub open spec fn with_king_square(self, color: PieceColor, square: (usize, usize)) -> BoardView {
        match color {
            PieceColor::WHITE => BoardView { white_king: square, ..self },
            PieceColor::BLACK => BoardView { black_king: square, ..self },
        }
    }

    /// Whether a piece of `by` can move to file `x`, rank `y`.
    pub open spec fn is_attacked(self, x: int, y: int, by: PieceColor) -> bool {
        attacked(self.grid, self.pieces(by), x, y)
    }

    /// Whether the cached square of the king of `color` is attacked by the
    /// other side.
    pub open spec fn in_check(self, color: PieceColor) -> bool {
        self.is_attacked(
            self.king_square(color).0 as int,
            self.king_square(color).1 as int,
            color.opposite(),
        )
    }

    /// The grid and the lists of live pieces agree: every piece is shown on
    /// its square, everything shown is a live piece, no two pieces share a
    /// square, and a king stands on the cached square of its side.
    #[verifier::opaque]
    pub open spec fn consistent(self) -> bool {
        &&& is_chess_grid(self.grid)
        &&& pieces_valid(self.white, PieceColor::WHITE)
        &&& pieces_valid(self.black, PieceColor::BLACK)
        &&& distinct_squares(self.white)
        &&& distinct_squares(self.black)
        &&& shown(self.grid, self.white)
        &&& shown(self.grid, self.black)
        &&& backed(self.grid, self.white, PieceColor::WHITE)
        &&& backed(self.grid, self.black, PieceColor::BLACK)
        &&& kings_cached(self.white, self.white_king)
        &&& kings_cached(self.black, self.black_king)
    }

    /// Whether a piece of `color` stands on the square.
    pub open spec fn has_piece(self, color: PieceColor, x: int, y: int) -> bool {
        find_at(self.pieces(color), x, y) is Some
    }

    /// The position without the first piece of `color` on the square, in
    /// the list and on the grid; the position itself where there is none.
    pub open spec fn without(self, color: PieceColor, x: int, y: int) -> BoardView {
        match find_at(self.pieces(color), x, y) {
            Some(k) => {
                let cleared = if on_board(x, y) {
                    grid_with(self.grid, x, y, QuickPiece::EMPTY)
                } else {
                    self.grid
                };
                self.with_pieces(color, self.pieces(color).remove(k)).with_grid(cleared)
            },
            None => self,
        }
    }

    /// The opposing pieces that are left when a piece of `color` lands on
    /// the square: without the first of them on it, where the grid shows one.
    pub open spec fn survivors(self, color: PieceColor, x: int, y: int) -> Seq<AnyPiece> {
        let others = self.pieces(color.opposite());
        if self.grid[x][y].holds(color.opposite()) {
            match find_at(others, x, y) {
                Some(k) => others.remove(k),
                None => others,
            }
        } else {
            others
        }
    }

    /// The position after the first piece of `color` on the start square
    /// has been lifted onto the end square: the start square is empty, the
    /// end square shows what the start square showed, an opposing piece
    /// that stood there has left its list, the moved piece records its new
    /// square, and so does the cache if it is a king.
    pub open spec fn applied(
        self,
        x_start: int,
        y_start: int,
        x_end: int,
        y_end: int,
        color: PieceColor,
    ) -> BoardView {
        let own = self.pieces(color);
        let i = find_at(own, x_start, y_start)->0;
        let lifted = grid_with(self.grid, x_start, y_start, QuickPiece::EMPTY);
        let grid = grid_with(lifted, x_end, y_end, self.grid[x_start][y_start]);
        let moved = own.update(i, own[i].placed_at(x_end as usize, y_end as usize));
        let placed = self.with_pieces(
            color.opposite(),
            self.survivors(color, x_end, y_end),
        ).with_pieces(color, moved).with_grid(grid);
        if own[i] is King {
            placed.with_king_square(color, (x_end as usize, y_end as usize))
        } else {
            placed
        }
    }

    /// Whether the king of `checked` is attacked once the first piece of
    /// `color` on the start square has been lifted onto the end square.
    pub open spec fn exposes(
        self,
        x_start: int,
        y_start: int,
        x_end: int,
        y_end: int,
        color: PieceColor,
        checked: PieceColor,
    ) -> bool {
        self.applied(x_start, y_start, x_end, y_end, color).in_check(checked)
    }
}

} // verus!
