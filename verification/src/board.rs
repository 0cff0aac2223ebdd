//! The position as it is held in memory, and the operations on it: looking a
//! piece up, taking one off the board, the trial of a move and its way back,
//! the fingerprint of the placement, and the verdict on a capture en passant.
use crate::piece_types::{PieceColor, QuickPiece};
use crate::pieces::{
    grid_view, grid_with, is_chess_board, is_chess_grid, lemma_chess_board_grid, on_board,
    AnyPiece, PieceMove,
};
use crate::position::{
    attacked, find_at, is_first_at, kind_code, lemma_find_at_first, lemma_find_at_none, none_at,
    placement, square_code, BoardView, PlayedMoveView,
};
use crate::rules::passing_fault;
use crate::text::is_letter;
use std::collections::hash_map::DefaultHasher;
use std::collections::HashMap;
use std::hash::Hasher;
use vstd::prelude::*;
use vstd::std_specs::hash::DefaultHasherAdditionalSpecFns;

verus! {

/// Why a move was refused.
#[derive(Debug, PartialEq, Eq, Structural, Clone, Copy)]
pub enum MoveErrorKind {
    /// The text is no move in notation.
    Unreadable,
    /// The description names a square that is not on the board, or is no
    /// move of a piece at all.
    Malformed,
    /// No live piece of the side to move has the kind and the origin that
    /// the description gives.
    NoMatchingPiece,
    /// Pieces of that kind stand there, but none of them can reach the
    /// destination.
    IllegalGeometry,
    /// More than one piece fits the description.
    Ambiguous,
    /// The move would leave the mover's own king attacked.
    SelfCheck,
    /// A pawn reaches its last rank and no piece to promote to is named.
    InvalidPromotion,
    /// A pawn steps diagonally onto an empty square and may not capture en
    /// passant there.
    InvalidEnPassant(EnPassantFault),
    /// The king may not castle to that side.
    InvalidCastle,
}

/// Why a pawn may not capture en passant.
#[derive(Debug, PartialEq, Eq, Structural, Clone, Copy)]
pub enum EnPassantFault {
    /// The destination is not on the rank where the mover's side captures
    /// en passant.
    NotPassingRank,
    /// No move has been played yet.
    NoLastMove,
    /// The last move was not one of an opposing pawn.
    LastMoveNotPawn,
    /// The last move was not played on the file of the destination.
    WrongFile,
    /// The pawn that moved last did not land right behind the destination.
    NotAdjacent,
    /// The pawn that moved last did not advance by two ranks.
    NotDoubleStep,
}

/// A refused move: the reason, and a sentence for the player.
#[derive(Debug)]
pub struct MoveError {
    pub kind: MoveErrorKind,
    pub details: String,
}

impl MoveError {
    /// A refusal for the given reason, with the given sentence.
    pub fn new(kind: MoveErrorKind, msg: &str) -> (error: MoveError)
        ensures
            error.kind == kind,
            error.details@ == msg@,
    {
        MoveError { kind, details: String::from_str(msg) }
    }

    /// The sentence for the player.
    pub fn description(&self) -> (text: String)
        ensures
            text@ == self.details@,
    {
        self.details.clone()
    }
}

/// One entry of the log of played moves.
#[derive(Debug, PartialEq)]
pub struct PlayedMove {
    pub piece_string: String,
    pub starting_position: (usize, usize),
    pub end_position: (usize, usize),
    pub moving_color: PieceColor,
    pub promotion_piece: Option<String>,
}

impl View for PlayedMove {
    type V = PlayedMoveView;

    open spec fn view(&self) -> PlayedMoveView {
        PlayedMoveView {
            piece: self.piece_string@,
            start: self.starting_position,
            end: self.end_position,
            color: self.moving_color,
            promotion: match self.promotion_piece {
                Some(kind) => Some(kind@),
                None => None,
            },
        }
    }
}

impl PlayedMove {
    /// An entry of the log.
    pub fn new(
        piece_string: String,
        starting_position: (usize, usize),
        end_position: (usize, usize),
        moving_color: PieceColor,
        promotion_piece: Option<String>,
    ) -> (played: PlayedMove)
        ensures
            played == (PlayedMove {
                piece_string,
                starting_position,
                end_position,
                moving_color,
                promotion_piece,
            }),
    {
        PlayedMove { piece_string, starting_position, end_position, moving_color, promotion_piece }
    }

    /// The square on which the move ended.
    pub fn get_ending_pos(&self) -> (end: (usize, usize))
        ensures
            end == self.end_position,
    {
        self.end_position
    }
}

/// The log of played moves as values.
pub open spec fn log_view(moves: Seq<PlayedMove>) -> Seq<PlayedMoveView> {
    Seq::new(moves.len(), |i: int| moves[i]@)
}

/// A position: the grid of square contents, the live pieces of each side,
/// the cached squares of the two kings, the side that moved last, the log
/// of played moves, and how often the fingerprint of each position reached
/// so far has occurred.
pub struct Board {
    pub position_board: Vec<Vec<QuickPiece>>,
    pub live_white_pieces: Vec<AnyPiece>,
    pub live_black_pieces: Vec<AnyPiece>,
    pub white_king_position: (usize, usize),
    pub black_king_position: (usize, usize),
    pub last_move_color: PieceColor,
    pub played_moves: Vec<PlayedMove>,
    pub board_state_hashes: HashMap<u64, usize>,
}

impl View for Board {
    type V = BoardView;

    open spec fn view(&self) -> BoardView {
        BoardView {
            grid: grid_view(self.position_board@),
            white: self.live_white_pieces@,
            black: self.live_black_pieces@,
            white_king: self.white_king_position,
            black_king: self.black_king_position,
            last_move_color: self.last_move_color,
            moves: log_view(self.played_moves@),
            counts: self.board_state_hashes@,
        }
    }
}

/// Rewrites one square of the grid.
pub fn set_square(
    files: &mut Vec<Vec<QuickPiece>>,
    x_coord: usize,
    y_coord: usize,
    content: QuickPiece,
)
    requires
        is_chess_board(old(files)@),
        on_board(x_coord as int, y_coord as int),
    ensures
        is_chess_board(final(files)@),
        grid_view(final(files)@) == grid_with(
            grid_view(old(files)@),
            x_coord as int,
            y_coord as int,
            content,
        ),
{
    files[x_coord][y_coord] = content;
    assert(grid_view(files@) =~= grid_with(
        grid_view(old(files)@),
        x_coord as int,
        y_coord as int,
        content,
    ));
}

/// What a trial move changed, so that it can be taken back exactly.
#[derive(Debug, Clone, Copy)]
pub struct Trial {
    /// What the start square showed.
    pub start_content: QuickPiece,
    /// What the end square showed.
    pub end_content: QuickPiece,
    /// The place of the moved piece in the list of its side.
    pub mover: usize,
    /// The opposing piece that left its list, and the place it had there.
    pub displaced: Option<(usize, AnyPiece)>,
    /// The cached square of the mover's king before the trial.
    pub king_square: (usize, usize),
}

impl Trial {
    /// Whether this is the record of lifting the first piece of `color` on
    /// the start square of `before` onto the end square.
    pub open spec fn records(
        self,
        before: BoardView,
        x_start: int,
        y_start: int,
        x_end: int,
        y_end: int,
        color: PieceColor,
    ) -> bool {
        &&& self.start_content == before.grid[x_start][y_start]
        &&& self.end_content == before.grid[x_end][y_end]
        &&& find_at(before.pieces(color), x_start, y_start) == Some(self.mover as int)
        &&& self.king_square == before.king_square(color)
        &&& match self.displaced {
            Some((k, piece)) => {
                &&& before.grid[x_end][y_end].holds(color.opposite())
                &&& find_at(before.pieces(color.opposite()), x_end, y_end) == Some(k as int)
                &&& piece == before.pieces(color.opposite())[k as int]
            },
            None => before.survivors(color, x_end, y_end) == before.pieces(color.opposite()),
        }
    }

    /// The position `after` with this trial taken back, in the reverse
    /// order of its steps: the end square shows what it showed, the
    /// displaced piece is back in its place, the start square shows what it
    /// showed, and the moved piece and the cache record the start square
    /// again.
    pub open spec fn undone(
        self,
        after: BoardView,
        x_start: int,
        y_start: int,
        x_end: int,
        y_end: int,
        color: PieceColor,
    ) -> BoardView {
        let grid = grid_with(
            grid_with(after.grid, x_end, y_end, self.end_content),
            x_start,
            y_start,
            self.start_content,
        );
        let others = match self.displaced {
            Some((k, piece)) => after.pieces(color.opposite()).insert(k as int, piece),
            None => after.pieces(color.opposite()),
        };
        let own = after.pieces(color).update(
            self.mover as int,
            after.pieces(color)[self.mover as int].placed_at(x_start as usize, y_start as usize),
        );
        after.with_grid(grid).with_pieces(color.opposite(), others).with_pieces(
            color,
            own,
        ).with_king_square(color, self.king_square)
    }
}

/// A trial that is taken back leaves no trace: the position is the same
/// as before the trial.
pub proof fn law_trial_leaves_no_trace(
    before: BoardView,
    trial: Trial,
    x_start: int,
    y_start: int,
    x_end: int,
    y_end: int,
    color: PieceColor,
)
    requires
        is_chess_grid(before.grid),
        on_board(x_start, y_start),
        on_board(x_end, y_end),
        before.has_piece(color, x_start, y_start),
        trial.records(before, x_start, y_start, x_end, y_end, color),
    ensures
        trial.undone(
            before.applied(x_start, y_start, x_end, y_end, color),
            x_start,
            y_start,
            x_end,
            y_end,
            color,
        ) == before,
{
    let after = before.applied(x_start, y_start, x_end, y_end, color);
    let back = trial.undone(after, x_start, y_start, x_end, y_end, color);
    lemma_find_at_none(before.pieces(color), x_start, y_start);
    lemma_find_at_none(before.pieces(color.opposite()), x_end, y_end);
    assert(back.grid =~~= before.grid);
    assert(back.white =~= before.white);
    assert(back.black =~= before.black);
}

impl Board {
    /// The grid and the lists of live pieces agree.
    pub open spec fn consistent(&self) -> bool {
        self@.consistent()
    }

    /// A grid of eight by eight is held as eight files of eight ranks.
    pub proof fn lemma_files(&self)
        ensures
            is_chess_grid(self@.grid) <==> is_chess_board(self.position_board@),
    {
        lemma_chess_board_grid(self.position_board@);
    }

    /// The place in its list of the first live piece of `piece_color` on
    /// the given square.
    pub fn index_of_piece(
        &self,
        x_coord: usize,
        y_coord: usize,
        piece_color: &PieceColor,
    ) -> (found: Option<usize>)
        ensures
            match found {
                Some(i) => find_at(self@.pieces(*piece_color), x_coord as int, y_coord as int)
                    == Some(i as int) && is_first_at(
                    self@.pieces(*piece_color),
                    i as int,
                    x_coord as int,
                    y_coord as int,
                ),
                None => find_at(self@.pieces(*piece_color), x_coord as int, y_coord as int)
                    is None && none_at(self@.pieces(*piece_color), x_coord as int, y_coord as int),
            },
    {
        let piece_list = match piece_color {
            PieceColor::WHITE => &self.live_white_pieces,
            PieceColor::BLACK => &self.live_black_pieces,
        };
        let mut index: usize = 0;
        while index < piece_list.len()
            invariant
                piece_list@ == self@.pieces(*piece_color),
                index <= piece_list.len(),
                forall|j: int|
                    0 <= j < index ==> !(#[trigger] piece_list@[j]).stands_on(
                        x_coord as int,
                        y_coord as int,
                    ),
            decreases piece_list.len() - index,
        {
            let pos = piece_list[index].get_pos();
            if pos.0 == x_coord && pos.1 == y_coord {
                proof {
                    lemma_find_at_first(
                        piece_list@,
                        index as int,
                        x_coord as int,
                        y_coord as int,
                    );
                }
                return Some(index);
            }
            index = index + 1;
        }
        proof {
            lemma_find_at_none(piece_list@, x_coord as int, y_coord as int);
        }
        None
    }

    /// The first live piece of `piece_color` on the given square.
    pub fn find_piece_color(
        &mut self,
        x_coord: usize,
        y_coord: usize,
        piece_color: &PieceColor,
    ) -> (found: Option<&mut AnyPiece>)
        ensures
            match found {
                Some(piece) => {
                    &&& find_at(old(self)@.pieces(*piece_color), x_coord as int, y_coord as int)
                        matches Some(i)
                    &&& *piece == old(self)@.pieces(*piece_color)[i]
                    &&& final(self)@ == old(self)@.with_pieces(
                        *piece_color,
                        old(self)@.pieces(*piece_color).update(i, *final(piece)),
                    )
                },
                None => {
                    &&& find_at(old(self)@.pieces(*piece_color), x_coord as int, y_coord as int)
                        is None
                    &&& final(self)@ == old(self)@
                },
            },
    {
        match self.index_of_piece(x_coord, y_coord, piece_color) {
            Some(index) => {
                match piece_color {
                    PieceColor::WHITE => Some(&mut self.live_white_pieces[index]),
                    PieceColor::BLACK => Some(&mut self.live_black_pieces[index]),
                }
            },
            None => None,
        }
    }
    /// Whether a piece of the side opposing `king_color` can move to the
    /// given square.
    pub fn can_any_piece_check_king(
        &self,
        x_coord: usize,
        y_coord: usize,
        king_color: &PieceColor,
    ) -> (found: bool)
        requires
            is_chess_board(self.position_board@),
        ensures
            found == self@.is_attacked(x_coord as int, y_coord as int, king_color.opposite()),
    {
        let attackers = match king_color {
            PieceColor::WHITE => &self.live_black_pieces,
            PieceColor::BLACK => &self.live_white_pieces,
        };
        let ghost grid = self@.grid;
        let mut index: usize = 0;
        while index < attackers.len()
            invariant
                is_chess_board(self.position_board@),
                grid == grid_view(self.position_board@),
                attackers@ == self@.pieces(king_color.opposite()),
                index <= attackers.len(),
                forall|j: int|
                    0 <= j < index ==> !(#[trigger] attackers@[j]).reaches(
                        x_coord as int,
                        y_coord as int,
                        grid,
                    ),
            decreases attackers.len() - index,
        {
            if attackers[index].can_move(x_coord, y_coord, &self.position_board) {
                return true;
            }
            index = index + 1;
        }
        false
    }

    /// Moves what the start square shows onto the end square and leaves
    /// the start square empty.
    pub fn move_in_quick_board(
        &mut self,
        moving_x: usize,
        moving_y: usize,
        _moving_piece_color: &PieceColor,
        end_x: usize,
        end_y: usize,
    )
        requires
            is_chess_board(old(self).position_board@),
            on_board(moving_x as int, moving_y as int),
            on_board(end_x as int, end_y as int),
        ensures
            is_chess_board(final(self).position_board@),
            final(self)@ == old(self)@.with_grid(
                grid_with(
                    grid_with(old(self)@.grid, moving_x as int, moving_y as int, QuickPiece::EMPTY),
                    end_x as int,
                    end_y as int,
                    old(self)@.grid[moving_x as int][moving_y as int],
                ),
            ),
    {
        let starting_piece = self.position_board[moving_x][moving_y];
        set_square(&mut self.position_board, moving_x, moving_y, QuickPiece::EMPTY);
        set_square(&mut self.position_board, end_x, end_y, starting_piece);
    }

    /// Takes the first live piece of `color_to_remove` on the given square
    /// off the board, out of its list and off the grid. Says whether there
    /// was one; where there was none, nothing changes.
    pub fn remove_piece_color(
        &mut self,
        x_coord: usize,
        y_coord: usize,
        color_to_remove: &PieceColor,
    ) -> (removed: bool)
        requires
            is_chess_board(old(self).position_board@),
        ensures
            is_chess_board(final(self).position_board@),
            removed == old(self)@.has_piece(*color_to_remove, x_coord as int, y_coord as int),
            final(self)@ == old(self)@.without(*color_to_remove, x_coord as int, y_coord as int),
            old(self).consistent() ==> final(self).consistent(),
    {
        proof {
            if self.consistent() {
                crate::agreement::lemma_without_consistent(
                    self@,
                    *color_to_remove,
                    x_coord as int,
                    y_coord as int,
                );
            }
        }
        match self.index_of_piece(x_coord, y_coord, color_to_remove) {
            Some(index) => {
                match color_to_remove {
                    PieceColor::WHITE => {
                        self.live_white_pieces.remove(index);
                    },
                    PieceColor::BLACK => {
                        self.live_black_pieces.remove(index);
                    },
                }
                if x_coord < 8 && y_coord < 8 {
                    set_square(&mut self.position_board, x_coord, y_coord, QuickPiece::EMPTY);
                }
                true
            },
            None => false,
        }
    }

    /// The first step of every move, tried or played: lifts the first piece
    /// of the moving side on the start square onto the end square, takes an
    /// opposing piece that stood there out of its list, and records what a
    /// way back needs. Grid and lists stay in agreement where no piece of
    /// the moving side stands on the end square.
    pub fn lift(
        &mut self,
        x_start: usize,
        y_start: usize,
        x_end: usize,
        y_end: usize,
        moving_piece_color: &PieceColor,
    ) -> (trial: Trial)
        requires
            is_chess_board(old(self).position_board@),
            on_board(x_start as int, y_start as int),
            on_board(x_end as int, y_end as int),
            old(self)@.has_piece(*moving_piece_color, x_start as int, y_start as int),
        ensures
            is_chess_board(final(self).position_board@),
            final(self)@ == old(self)@.applied(
                x_start as int,
                y_start as int,
                x_end as int,
                y_end as int,
                *moving_piece_color,
            ),
            trial.records(
                old(self)@,
                x_start as int,
                y_start as int,
                x_end as int,
                y_end as int,
                *moving_piece_color,
            ),
            old(self).consistent() && !old(self)@.grid[x_end as int][y_end as int].holds(
                *moving_piece_color,
            ) ==> final(self).consistent(),
    {
        let ghost before = self@;
        proof {
            if self.consistent() && !before.grid[x_end as int][y_end as int].holds(
                *moving_piece_color,
            ) {
                crate::agreement::lemma_applied_consistent(
                    before,
                    *moving_piece_color,
                    x_start as int,
                    y_start as int,
                    x_end as int,
                    y_end as int,
                );
            }
        }
        let start_content = self.position_board[x_start][y_start];
        let end_content = self.position_board[x_end][y_end];
        let opposing = PieceColor::opposite_color(moving_piece_color);
        let mover = match self.index_of_piece(x_start, y_start, moving_piece_color) {
            Some(index) => index,
            None => 0,
        };
        let king_square = match moving_piece_color {
            PieceColor::WHITE => self.white_king_position,
            PieceColor::BLACK => self.black_king_position,
        };
        set_square(&mut self.position_board, x_start, y_start, QuickPiece::EMPTY);
        let mut displaced: Option<(usize, AnyPiece)> = None;
        let holds_opposing = match end_content {
            QuickPiece::PIECE(color) => color == opposing,
            QuickPiece::KING(color) => color == opposing,
            QuickPiece::EMPTY => false,
        };
        if holds_opposing {
            match self.index_of_piece(x_end, y_end, &opposing) {
                Some(index) => {
                    let piece = match opposing {
                        PieceColor::WHITE => self.live_white_pieces.remove(index),
                        PieceColor::BLACK => self.live_black_pieces.remove(index),
                    };
                    displaced = Some((index, piece));
                },
                None => {},
            }
        }
        set_square(&mut self.position_board, x_end, y_end, start_content);
        let is_king = match moving_piece_color {
            PieceColor::WHITE => {
                self.live_white_pieces[mover].set_pos(x_end, y_end);
                matches!(self.live_white_pieces[mover], AnyPiece::King(_))
            },
            PieceColor::BLACK => {
                self.live_black_pieces[mover].set_pos(x_end, y_end);
                matches!(self.live_black_pieces[mover], AnyPiece::King(_))
            },
        };
        if is_king {
            match moving_piece_color {
                PieceColor::WHITE => self.white_king_position = (x_end, y_end),
                PieceColor::BLACK => self.black_king_position = (x_end, y_end),
            }
        }
        proof {
            let after = before.applied(
                x_start as int,
                y_start as int,
                x_end as int,
                y_end as int,
                *moving_piece_color,
            );
            assert(self@.grid == after.grid);
            assert(self@.white =~= after.white);
            assert(self@.black =~= after.black);
        }
        Trial { start_content, end_content, mover, displaced, king_square }
    }

    /// Takes a trial move back, in the reverse order of its steps: the end
    /// square shows what it showed, the displaced piece is back in its place,
    /// the start square shows what it showed, and the moved piece and the
    /// cache record the start square again.
    pub fn put_back(
        &mut self,
        trial: &Trial,
        x_start: usize,
        y_start: usize,
        x_end: usize,
        y_end: usize,
        moving_piece_color: &PieceColor,
    )
        requires
            is_chess_board(old(self).position_board@),
            on_board(x_start as int, y_start as int),
            on_board(x_end as int, y_end as int),
            trial.mover < old(self)@.pieces(*moving_piece_color).len(),
            trial.displaced matches Some((k, _)) ==> k <= old(self)@.pieces(
                moving_piece_color.opposite(),
            ).len(),
        ensures
            is_chess_board(final(self).position_board@),
            final(self)@ == trial.undone(
                old(self)@,
                x_start as int,
                y_start as int,
                x_end as int,
                y_end as int,
                *moving_piece_color,
            ),
    {
        let opposing = PieceColor::opposite_color(moving_piece_color);
        set_square(&mut self.position_board, x_end, y_end, trial.end_content);
        match trial.displaced {
            Some((index, piece)) => {
                match opposing {
                    PieceColor::WHITE => self.live_white_pieces.insert(index, piece),
                    PieceColor::BLACK => self.live_black_pieces.insert(index, piece),
                }
            },
            None => {},
        }
        set_square(&mut self.position_board, x_start, y_start, trial.start_content);
        match moving_piece_color {
            PieceColor::WHITE => {
                self.live_white_pieces[trial.mover].set_pos(x_start, y_start);
                self.white_king_position = trial.king_square;
            },
            PieceColor::BLACK => {
                self.live_black_pieces[trial.mover].set_pos(x_start, y_start);
                self.black_king_position = trial.king_square;
            },
        }
    }

    /// The number that stands in a fingerprint for what the lists hold on
    /// the given square.
    pub fn code_of_square(&self, x_coord: usize, y_coord: usize) -> (code: u8)
        ensures
            code == square_code(self@.white, self@.black, x_coord as int, y_coord as int),
    {
        match self.index_of_piece(x_coord, y_coord, &PieceColor::WHITE) {
            Some(index) => kind_number(&self.live_white_pieces[index]),
            None => match self.index_of_piece(x_coord, y_coord, &PieceColor::BLACK) {
                Some(index) => 6 + kind_number(&self.live_black_pieces[index]),
                None => 0,
            },
        }
    }

    /// The fingerprint of the position: the hash of the placement of its
    /// live pieces.
    pub fn get_current_hash(&self) -> (hash: u64)
        ensures
            hash == self@.fingerprint(),
    {
        let mut codes: Vec<u8> = Vec::new();
        let mut x: usize = 0;
        while x < 8
            invariant
                x <= 8,
                codes@.len() == 8 * x,
                forall|i: int|
                    0 <= i < codes@.len() ==> codes@[i] == square_code(
                        self@.white,
                        self@.black,
                        i / 8,
                        i % 8,
                    ),
            decreases 8 - x,
        {
            let mut y: usize = 0;
            while y < 8
                invariant
                    x < 8,
                    y <= 8,
                    codes@.len() == 8 * x + y,
                    forall|i: int|
                        0 <= i < codes@.len() ==> codes@[i] == square_code(
                            self@.white,
                            self@.black,
                            i / 8,
                            i % 8,
                        ),
                decreases 8 - y,
            {
                let code = self.code_of_square(x, y);
                codes.push(code);
                y = y + 1;
            }
            x = x + 1;
        }
        assert(codes@ =~= placement(self@.white, self@.black));
        let mut hasher = DefaultHasher::new();
        hasher.write(codes.as_slice());
        assert(hasher@ =~= seq![placement(self@.white, self@.black)]);
        hasher.finish()
    }

    /// Counts the fingerprint of the position once more.
    pub fn add_state_hash(&mut self)
        ensures
            final(self)@ == old(self)@.counted(),
            final(self).position_board == old(self).position_board,
            old(self).consistent() ==> final(self).consistent(),
    {
        proof {
            if self.consistent() {
                crate::agreement::lemma_consistent_frame(self@, self@.counted());
            }
        }
        broadcast use vstd::std_specs::hash::group_hash_axioms;

        let hash = self.get_current_hash();
        let count: usize = match self.board_state_hashes.get(&hash) {
            Some(current_count) => if *current_count < usize::MAX {
                *current_count + 1
            } else {
                usize::MAX
            },
            None => 1,
        };
        self.board_state_hashes.insert(hash, count);
    }

    /// The move that was played last, if any was.
    pub fn last_played(&self) -> (last: Option<&PlayedMove>)
        ensures
            match last {
                Some(played) => self@.last_move() == Some(played@) && self.played_moves@.len() > 0
                    && *played == self.played_moves@.last(),
                None => self@.last_move() is None,
            },
    {
        let count = self.played_moves.len();
        if count == 0 {
            None
        } else {
            Some(&self.played_moves[count - 1])
        }
    }

    /// Why the log does not allow a pawn of `color` to capture en passant
    /// onto the given square; nothing where it does.
    pub fn en_passant_fault(&self, color: &PieceColor, end_x: usize, end_y: usize) -> (fault: Option<
        EnPassantFault,
    >)
        ensures
            fault == passing_fault(self@.last_move(), *color, end_x as int, end_y as int),
    {
        let passing_rank: usize = match color {
            PieceColor::WHITE => 5,
            PieceColor::BLACK => 2,
        };
        if end_y != passing_rank {
            return Some(EnPassantFault::NotPassingRank);
        }
        let last_played_move = match self.last_played() {
            Some(played) => played,
            None => {
                return Some(EnPassantFault::NoLastMove);
            },
        };
        if !is_letter(last_played_move.piece_string.as_str(), 'P') || last_played_move.moving_color
            == *color {
            return Some(EnPassantFault::LastMoveNotPawn);
        }
        if last_played_move.starting_position.0 != last_played_move.end_position.0
            || last_played_move.starting_position.0 != end_x {
            return Some(EnPassantFault::WrongFile);
        }
        let (behind, beyond): (usize, usize) = match color {
            PieceColor::WHITE => (4, 6),
            PieceColor::BLACK => (3, 1),
        };
        if last_played_move.end_position.1 != behind {
            return Some(EnPassantFault::NotAdjacent);
        }
        if last_played_move.starting_position.1 != beyond {
            return Some(EnPassantFault::NotDoubleStep);
        }
        None
    }

    /// Whether a pawn of `color` that steps from the start square to the
    /// end square captures en passant, and may.
    pub fn en_passant_status(
        &self,
        moving_piece_symbol: &str,
        color: &PieceColor,
        start_x: usize,
        start_y: usize,
        end_x: usize,
        end_y: usize,
    ) -> (status: Result<bool, EnPassantFault>)
        requires
            is_chess_board(self.position_board@),
        ensures
            status == self@.passing_verdict(
                moving_piece_symbol@,
                *color,
                start_x as int,
                start_y as int,
                end_x as int,
                end_y as int,
            ),
    {
        if !is_letter(moving_piece_symbol, 'P') {
            return Ok(false);
        }
        if start_x >= 8 || start_y >= 8 || end_x >= 8 || end_y >= 8 {
            return Ok(false);
        }
        if crate::pieces::delta(start_x, end_x) != 1 {
            return Ok(false);
        }
        let ahead = match color {
            PieceColor::WHITE => end_y == start_y + 1,
            PieceColor::BLACK => start_y == end_y + 1,
        };
        if !ahead {
            return Ok(false);
        }
        match self.position_board[end_x][end_y] {
            QuickPiece::EMPTY => {},
            _ => {
                return Ok(false);
            },
        }
        match self.en_passant_fault(color, end_x, end_y) {
            Some(fault) => Err(fault),
            None => Ok(true),
        }
    }

    /// The verdict on a move of the side to move as a capture en passant:
    /// `Ok(false)` where it is none, `Ok(true)` where it is one and the last
    /// move allows it, and an error that names the fault where the step is
    /// that of a capture en passant and the last move does not allow it.
    pub fn valid_en_passant(
        &self,
        moving_piece_symbol: &str,
        start_x: usize,
        start_y: usize,
        end_x: usize,
        end_y: usize,
    ) -> (verdict: Result<bool, MoveError>)
        requires
            is_chess_board(self.position_board@),
        ensures
            match self@.passing_verdict(
                moving_piece_symbol@,
                self@.to_move(),
                start_x as int,
                start_y as int,
                end_x as int,
                end_y as int,
            ) {
                Ok(capture) => verdict == Ok::<bool, MoveError>(capture),
                Err(fault) => {
                    &&& verdict is Err
                    &&& verdict->Err_0.kind == MoveErrorKind::InvalidEnPassant(fault)
                    &&& verdict->Err_0.details@ == sentence(
                        MoveErrorKind::InvalidEnPassant(fault),
                    )@
                },
            },
    {
        let color = PieceColor::opposite_color(&self.last_move_color);
        match self.en_passant_status(moving_piece_symbol, &color, start_x, start_y, end_x, end_y) {
            Ok(capture) => Ok(capture),
            Err(fault) => Err(refusal(MoveErrorKind::InvalidEnPassant(fault))),
        }
    }
}

/// The sentence that tells the player why a move was refused.
pub open spec fn sentence(kind: MoveErrorKind) -> &'static str {
    match kind {
        MoveErrorKind::Unreadable => "The text is no move in notation.",
        MoveErrorKind::Malformed => "The move names no square of the board.",
        MoveErrorKind::NoMatchingPiece => "The moving piece could not be found for the move.",
        MoveErrorKind::IllegalGeometry => "No piece of that kind can move to that square.",
        MoveErrorKind::Ambiguous => "More than one piece can make that move.",
        MoveErrorKind::SelfCheck => "This move is invalid.  You are in check if you do the move.",
        MoveErrorKind::InvalidPromotion => "A pawn on its last rank becomes a knight, a bishop, a rook or a queen.",
        MoveErrorKind::InvalidCastle => "The king may not castle to that side.",
        MoveErrorKind::InvalidEnPassant(fault) => match fault {
            EnPassantFault::NotPassingRank => "Pawn tried to take to empty location without valid en passant.",
            EnPassantFault::NoLastMove => "Pawn tried to take to empty location without valid en passant. There is no last move",
            EnPassantFault::LastMoveNotPawn => "Pawn tried to take to empty location without valid en passant. The last moved piece is not a pawn",
            EnPassantFault::WrongFile => "Pawn tried to take to empty location without valid en passant. Moving pawn not on last moved x location",
            EnPassantFault::NotAdjacent => "Pawn tried to take to empty location without valid en passant. Moving pawn not in the middle spot",
            EnPassantFault::NotDoubleStep => "Pawn tried to take to empty location without valid en passant. last pawn did not move 2 spaces",
        },
    }
}

/// The refusal of a move for the given reason, with its sentence for the
/// player.
pub fn refusal(kind: MoveErrorKind) -> (error: MoveError)
    ensures
        error.kind == kind,
        error.details@ == sentence(kind)@,
{
    let text = match kind {
        MoveErrorKind::Unreadable => "The text is no move in notation.",
        MoveErrorKind::Malformed => "The move names no square of the board.",
        MoveErrorKind::NoMatchingPiece => "The moving piece could not be found for the move.",
        MoveErrorKind::IllegalGeometry => "No piece of that kind can move to that square.",
        MoveErrorKind::Ambiguous => "More than one piece can make that move.",
        MoveErrorKind::SelfCheck => "This move is invalid.  You are in check if you do the move.",
        MoveErrorKind::InvalidPromotion => "A pawn on its last rank becomes a knight, a bishop, a rook or a queen.",
        MoveErrorKind::InvalidCastle => "The king may not castle to that side.",
        MoveErrorKind::InvalidEnPassant(fault) => match fault {
            EnPassantFault::NotPassingRank => "Pawn tried to take to empty location without valid en passant.",
            EnPassantFault::NoLastMove => "Pawn tried to take to empty location without valid en passant. There is no last move",
            EnPassantFault::LastMoveNotPawn => "Pawn tried to take to empty location without valid en passant. The last moved piece is not a pawn",
            EnPassantFault::WrongFile => "Pawn tried to take to empty location without valid en passant. Moving pawn not on last moved x location",
            EnPassantFault::NotAdjacent => "Pawn tried to take to empty location without valid en passant. Moving pawn not in the middle spot",
            EnPassantFault::NotDoubleStep => "Pawn tried to take to empty location without valid en passant. last pawn did not move 2 spaces",
        },
    };
    MoveError::new(kind, text)
}

/// The number that stands for the kind of a piece in a fingerprint.
pub fn kind_number(piece: &AnyPiece) -> (code: u8)
    ensures
        code == kind_code(*piece),
{
    match piece {
        AnyPiece::King(_) => 1,
        AnyPiece::Queen(_) => 2,
        AnyPiece::Bishop(_) => 3,
        AnyPiece::Knight(_) => 4,
        AnyPiece::Rook(_) => 5,
        AnyPiece::Pawn(_) => 6,
    }
}

} // verus!
