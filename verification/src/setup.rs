//! The position from which a game starts.
use crate::board::Board;
use crate::piece_types::{PieceColor, QuickPiece};
use crate::pieces::bishop::Bishop;
use crate::pieces::king::King;
use crate::pieces::knight::Knight;
use crate::pieces::pawn::Pawn;
use crate::pieces::queen::Queen;
use crate::pieces::rook::Rook;
use crate::pieces::{grid_view, is_chess_board, is_chess_grid, on_board, AnyPiece, Grid, PieceMove};
use crate::position::{
    backed, distinct_squares, kings_cached, none_at, pawn_from_pawn_rank, pieces_valid, shown,
    BoardView,
};
use std::collections::HashMap;
use vstd::prelude::*;

verus! {

/// What the grid shows on a square when a game starts.
pub open spec fn standard_cell(x: int, y: int) -> QuickPiece {
    if y == 0 {
        if x == 4 {
            QuickPiece::KING(PieceColor::WHITE)
        } else {
            QuickPiece::PIECE(PieceColor::WHITE)
        }
    } else if y == 1 {
        QuickPiece::PIECE(PieceColor::WHITE)
    } else if y == 6 {
        QuickPiece::PIECE(PieceColor::BLACK)
    } else if y == 7 {
        if x == 4 {
            QuickPiece::KING(PieceColor::BLACK)
        } else {
            QuickPiece::PIECE(PieceColor::BLACK)
        }
    } else {
        QuickPiece::EMPTY
    }
}

/// The grid when a game starts.
pub open spec fn standard_grid() -> Grid {
    Seq::new(8, |x: int| Seq::new(8, |y: int| standard_cell(x, y)))
}

/// The pieces of one side when a game starts: the rooks, the knights, the
/// bishops, the queen and the king on the home rank, then the pawns from
/// file to file.
pub open spec fn standard_pieces(color: PieceColor) -> Seq<AnyPiece> {
    let home = color.home_rank() as usize;
    let pawns = color.pawn_rank() as usize;
    seq![
        AnyPiece::Rook(Rook { pos_x: 0, pos_y: home, piece_color: color, has_moved: false }),
        AnyPiece::Rook(Rook { pos_x: 7, pos_y: home, piece_color: color, has_moved: false }),
        AnyPiece::Knight(Knight { pos_x: 1, pos_y: home, piece_color: color }),
        AnyPiece::Knight(Knight { pos_x: 6, pos_y: home, piece_color: color }),
        AnyPiece::Bishop(Bishop { pos_x: 2, pos_y: home, piece_color: color }),
        AnyPiece::Bishop(Bishop { pos_x: 5, pos_y: home, piece_color: color }),
        AnyPiece::Queen(Queen { pos_x: 3, pos_y: home, piece_color: color }),
        AnyPiece::King(King { pos_x: 4, pos_y: home, piece_color: color, has_moved: false }),
        AnyPiece::Pawn(
            Pawn { pos_x: 0, pos_y: pawns, piece_color: color, starting_y_position: pawns },
        ),
        AnyPiece::Pawn(
            Pawn { pos_x: 1, pos_y: pawns, piece_color: color, starting_y_position: pawns },
        ),
        AnyPiece::Pawn(
            Pawn { pos_x: 2, pos_y: pawns, piece_color: color, starting_y_position: pawns },
        ),
        AnyPiece::Pawn(
            Pawn { pos_x: 3, pos_y: pawns, piece_color: color, starting_y_position: pawns },
        ),
        AnyPiece::Pawn(
            Pawn { pos_x: 4, pos_y: pawns, piece_color: color, starting_y_position: pawns },
        ),
        AnyPiece::Pawn(
            Pawn { pos_x: 5, pos_y: pawns, piece_color: color, starting_y_position: pawns },
        ),
        AnyPiece::Pawn(
            Pawn { pos_x: 6, pos_y: pawns, piece_color: color, starting_y_position: pawns },
        ),
        AnyPiece::Pawn(
            Pawn { pos_x: 7, pos_y: pawns, piece_color: color, starting_y_position: pawns },
        ),
    ]
}

/// The position from which a game starts, before its fingerprint is
/// counted: white is to move, nothing has been played.
pub open spec fn standard_position() -> BoardView {
    BoardView {
        grid: standard_grid(),
        white: standard_pieces(PieceColor::WHITE),
        black: standard_pieces(PieceColor::BLACK),
        white_king: (4, 0),
        black_king: (4, 7),
        last_move_color: PieceColor::BLACK,
        moves: Seq::empty(),
        counts: Map::empty(),
    }
}

/// The place in the list of its side of the piece that starts a game on
/// the given square of the home rank or the pawn rank.
pub open spec fn standard_place(x: int, on_home_rank: bool) -> int {
    if !on_home_rank {
        8 + x
    } else if x == 0 {
        0
    } else if x == 7 {
        1
    } else if x == 1 {
        2
    } else if x == 6 {
        3
    } else if x == 2 {
        4
    } else if x == 5 {
        5
    } else if x == 3 {
        6
    } else {
        7
    }
}

/// The pieces of one side, as a game sets them up, agree with the grid.
proof fn lemma_standard_side(color: PieceColor)
    ensures
        standard_pieces(color).len() == 16,
        pieces_valid(standard_pieces(color), color),
        distinct_squares(standard_pieces(color)),
        shown(standard_grid(), standard_pieces(color)),
        backed(standard_grid(), standard_pieces(color), color),
        kings_cached(standard_pieces(color), (4, color.home_rank() as usize)),
{
    let pieces = standard_pieces(color);
    let grid = standard_grid();
    let home = color.home_rank();
    let pawns = color.pawn_rank();
    assert forall|i: int| 0 <= i < 16 implies {
        &&& (#[trigger] pieces[i]).placed()
        &&& pieces[i].side() == color
        &&& pawn_from_pawn_rank(pieces[i])
        &&& (pieces[i].square().1 == home || pieces[i].square().1 == pawns)
        &&& standard_place(pieces[i].square().0 as int, pieces[i].square().1 == home) == i
        &&& grid[pieces[i].square().0 as int][pieces[i].square().1 as int] == pieces[i].content()
        &&& (pieces[i] is King ==> pieces[i].square() == (4usize, home as usize))
    } by {
        if i == 0 {
        } else if i == 1 {
        } else if i == 2 {
        } else if i == 3 {
        } else if i == 4 {
        } else if i == 5 {
        } else if i == 6 {
        } else if i == 7 {
        } else if i == 8 {
        } else if i == 9 {
        } else if i == 10 {
        } else if i == 11 {
        } else if i == 12 {
        } else if i == 13 {
        } else if i == 14 {
        } else {
        }
    }
    assert forall|x: int, y: int| on_board(x, y) && (#[trigger] grid[x][y]).holds(
        color,
    ) implies !none_at(pieces, x, y) by {
        assert(y == home || y == pawns);
        let i = standard_place(x, y == home);
        assert(0 <= i < 16);
        assert(pieces[i].stands_on(x, y)) by {
            if i == 0 {
            } else if i == 1 {
            } else if i == 2 {
            } else if i == 3 {
            } else if i == 4 {
            } else if i == 5 {
            } else if i == 6 {
            } else if i == 7 {
            } else if i == 8 {
            } else if i == 9 {
            } else if i == 10 {
            } else if i == 11 {
            } else if i == 12 {
            } else if i == 13 {
            } else if i == 14 {
            } else {
            }
        }
    }
}

/// The position from which a game starts is one in which the grid and the
/// lists agree.
pub proof fn lemma_standard_consistent()
    ensures
        standard_position().consistent(),
        standard_position().counted().consistent(),
{
    reveal(BoardView::consistent);
    lemma_standard_side(PieceColor::WHITE);
    lemma_standard_side(PieceColor::BLACK);
    let grid = standard_grid();
    assert(is_chess_grid(grid));
}

impl Board {
    /// The square on which the black king starts a game.
    pub fn default_black_king_pos() -> (square: (usize, usize))
        ensures
            square == (4usize, 7usize),
    {
        (4, 7)
    }

    /// The square on which the white king starts a game.
    pub fn default_white_king_pos() -> (square: (usize, usize))
        ensures
            square == (4usize, 0usize),
    {
        (4, 0)
    }

    /// One file of the grid as a game sets it up.
    fn default_file(on_king_file: bool) -> (file: Vec<QuickPiece>)
        ensures
            file@.len() == 8,
            forall|y: int|
                0 <= y < 8 ==> #[trigger] file@[y] == standard_cell(
                    if on_king_file {
                        4
                    } else {
                        0
                    },
                    y,
                ),
    {
        let home_white = if on_king_file {
            QuickPiece::KING(PieceColor::WHITE)
        } else {
            QuickPiece::PIECE(PieceColor::WHITE)
        };
        let home_black = if on_king_file {
            QuickPiece::KING(PieceColor::BLACK)
        } else {
            QuickPiece::PIECE(PieceColor::BLACK)
        };
        vec![
            home_white,
            QuickPiece::PIECE(PieceColor::WHITE),
            QuickPiece::EMPTY,
            QuickPiece::EMPTY,
            QuickPiece::EMPTY,
            QuickPiece::EMPTY,
            QuickPiece::PIECE(PieceColor::BLACK),
            home_black,
        ]
    }

    /// The grid as a game sets it up: on the king's file the two kings at
    /// the ends, on every file a white piece and a white pawn below, a
    /// black pawn and a black piece above, and four empty squares between.
    pub fn create_default_position_board() -> (files: Vec<Vec<QuickPiece>>)
        ensures
            is_chess_board(files@),
            grid_view(files@) == standard_grid(),
    {
        let mut files: Vec<Vec<QuickPiece>> = Vec::new();
        let mut x: usize = 0;
        while x < 8
            invariant
                x <= 8,
                files@.len() == x,
                forall|a: int| 0 <= a < x ==> (#[trigger] files@[a])@.len() == 8,
                forall|a: int, y: int|
                    0 <= a < x && 0 <= y < 8 ==> #[trigger] files@[a]@[y] == standard_cell(a, y),
            decreases 8 - x,
        {
            let file = Board::default_file(x == 4);
            files.push(file);
            x = x + 1;
        }
        assert(grid_view(files@) =~~= standard_grid());
        files
    }

    /// The white pieces as a game sets them up.
    pub fn default_live_white_pieces() -> (pieces: Vec<AnyPiece>)
        ensures
            pieces@ == standard_pieces(PieceColor::WHITE),
    {
        let pieces = vec![
            AnyPiece::Rook(Rook::new(0, 0, PieceColor::WHITE)),
            AnyPiece::Rook(Rook::new(7, 0, PieceColor::WHITE)),
            AnyPiece::Knight(Knight::new(1, 0, PieceColor::WHITE)),
            AnyPiece::Knight(Knight::new(6, 0, PieceColor::WHITE)),
            AnyPiece::Bishop(Bishop::new(2, 0, PieceColor::WHITE)),
            AnyPiece::Bishop(Bishop::new(5, 0, PieceColor::WHITE)),
            AnyPiece::Queen(Queen::new(3, 0, PieceColor::WHITE)),
            AnyPiece::King(King::new(4, 0, PieceColor::WHITE)),
            AnyPiece::Pawn(Pawn::new(0, 1, PieceColor::WHITE)),
            AnyPiece::Pawn(Pawn::new(1, 1, PieceColor::WHITE)),
            AnyPiece::Pawn(Pawn::new(2, 1, PieceColor::WHITE)),
            AnyPiece::Pawn(Pawn::new(3, 1, PieceColor::WHITE)),
            AnyPiece::Pawn(Pawn::new(4, 1, PieceColor::WHITE)),
            AnyPiece::Pawn(Pawn::new(5, 1, PieceColor::WHITE)),
            AnyPiece::Pawn(Pawn::new(6, 1, PieceColor::WHITE)),
            AnyPiece::Pawn(Pawn::new(7, 1, PieceColor::WHITE)),
        ];
        assert(pieces@ =~= standard_pieces(PieceColor::WHITE));
        pieces
    }

    /// The black pieces as a game sets them up.
    pub fn default_live_black_pieces() -> (pieces: Vec<AnyPiece>)
        ensures
            pieces@ == standard_pieces(PieceColor::BLACK),
    {
        let pieces = vec![
            AnyPiece::Rook(Rook::new(0, 7, PieceColor::BLACK)),
            AnyPiece::Rook(Rook::new(7, 7, PieceColor::BLACK)),
            AnyPiece::Knight(Knight::new(1, 7, PieceColor::BLACK)),
            AnyPiece::Knight(Knight::new(6, 7, PieceColor::BLACK)),
            AnyPiece::Bishop(Bishop::new(2, 7, PieceColor::BLACK)),
            AnyPiece::Bishop(Bishop::new(5, 7, PieceColor::BLACK)),
            AnyPiece::Queen(Queen::new(3, 7, PieceColor::BLACK)),
            AnyPiece::King(King::new(4, 7, PieceColor::BLACK)),
            AnyPiece::Pawn(Pawn::new(0, 6, PieceColor::BLACK)),
            AnyPiece::Pawn(Pawn::new(1, 6, PieceColor::BLACK)),
            AnyPiece::Pawn(Pawn::new(2, 6, PieceColor::BLACK)),
            AnyPiece::Pawn(Pawn::new(3, 6, PieceColor::BLACK)),
            AnyPiece::Pawn(Pawn::new(4, 6, PieceColor::BLACK)),
            AnyPiece::Pawn(Pawn::new(5, 6, PieceColor::BLACK)),
            AnyPiece::Pawn(Pawn::new(6, 6, PieceColor::BLACK)),
            AnyPiece::Pawn(Pawn::new(7, 6, PieceColor::BLACK)),
        ];
        assert(pieces@ =~= standard_pieces(PieceColor::BLACK));
        pieces
    }

    /// The position from which a game starts, with its fingerprint counted
    /// once.
    pub fn new() -> (board: Board)
        ensures
            board@ == standard_position().counted(),
            board.consistent(),
            is_chess_board(board.position_board@),
    {
        let mut board = Board {
            position_board: Board::create_default_position_board(),
            live_white_pieces: Board::default_live_white_pieces(),
            live_black_pieces: Board::default_live_black_pieces(),
            white_king_position: Board::default_white_king_pos(),
            black_king_position: Board::default_black_king_pos(),
            last_move_color: PieceColor::BLACK,
            played_moves: Vec::new(),
            board_state_hashes: HashMap::new(),
        };
        assert(board@.moves =~= Seq::empty());
        assert(board@ == standard_position());
        board.add_state_hash();
        proof {
            lemma_standard_consistent();
            board.lemma_files();
            crate::agreement::lemma_consistent_shaped(board@);
        }
        board
    }
}

} // verus!
