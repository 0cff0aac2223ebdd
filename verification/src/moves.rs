//! Playing a move: finding the piece that a description names, telling
//! whether the move is legal, and playing it for good.
use crate::agreement::{
    base_of, lemma_base, lemma_consistent_frame, lemma_consistent_shaped, lemma_played_consistent,
    lemma_resolved_admits,
};
use crate::laws::lemma_castled_safe;
use crate::castling::{king_castled, lemma_castled_consistent, lemma_king_castled, rook_castled};
use crate::board::{refusal, sentence, set_square, Board, MoveError, MoveErrorKind, PlayedMove};
use crate::game::will_move_be_in_check;
use crate::parser::{coordinate_of, read_coordinate, MoveTypes, ParsedMove};
use crate::piece_types::{PieceColor, QuickPiece};
use crate::pieces::{delta, is_chess_board, on_board, AnyPiece, PieceMove};
use crate::position::{find_at, lemma_find_at_none, BoardView, PlayedMoveView};
use crate::rules::{
    fits_kind, fits_origin, promotion_piece, promotion_text, touched, Move, MoveTag,
};
use crate::text::is_letter;
use vstd::prelude::*;

verus! {

/// The text that an optional piece of text holds.
pub open spec fn str_of(text: Option<&str>) -> Option<Seq<char>> {
    match text {
        Some(s) => Some(s@),
        None => None,
    }
}

/// The letter of a kind of piece as a text.
pub fn letter_text(letter: char) -> (text: &'static str)
    ensures
        AnyPiece::of_letter(letter, 0, 0, PieceColor::WHITE) is Some ==> text@ == seq![letter],
{
    proof {
        reveal_strlit("K");
        reveal_strlit("Q");
        reveal_strlit("B");
        reveal_strlit("N");
        reveal_strlit("R");
        reveal_strlit("P");
        reveal_strlit("");
    }
    let text = if letter == 'K' {
        "K"
    } else if letter == 'Q' {
        "Q"
    } else if letter == 'B' {
        "B"
    } else if letter == 'N' {
        "N"
    } else if letter == 'R' {
        "R"
    } else if letter == 'P' {
        "P"
    } else {
        ""
    };
    assert(AnyPiece::of_letter(letter, 0, 0, PieceColor::WHITE) is Some ==> text@ =~= seq![letter]);
    text
}

/// The piece once it has been moved: a king or a rook has lost the right
/// to castle.
pub fn touch(piece: AnyPiece) -> (after: AnyPiece)
    ensures
        after == touched(piece),
{
    match piece {
        AnyPiece::King(king) => {
            let mut king = king;
            king.set_has_moved(true);
            AnyPiece::King(king)
        },
        AnyPiece::Rook(rook) => {
            let mut rook = rook;
            rook.set_has_moved(true);
            AnyPiece::Rook(rook)
        },
        _ => piece,
    }
}

/// The piece that a pawn becomes on the given square, if the text names a
/// knight, a bishop, a rook or a queen.
pub fn piece_to_promote_to(
    kind: Option<&str>,
    x_coord: usize,
    y_coord: usize,
    color: PieceColor,
) -> (piece: Option<AnyPiece>)
    ensures
        piece == promotion_piece(str_of(kind), x_coord, y_coord, color),
{
    match kind {
        Some(text) => {
            if is_letter(text, 'N') {
                AnyPiece::from_letter('N', x_coord, y_coord, color)
            } else if is_letter(text, 'B') {
                AnyPiece::from_letter('B', x_coord, y_coord, color)
            } else if is_letter(text, 'R') {
                AnyPiece::from_letter('R', x_coord, y_coord, color)
            } else if is_letter(text, 'Q') {
                AnyPiece::from_letter('Q', x_coord, y_coord, color)
            } else {
                None
            }
        },
        None => None,
    }
}

impl Board {
    /// The live piece at a place of the list of one side.
    pub fn piece_of(&self, color: &PieceColor, index: usize) -> (piece: AnyPiece)
        requires
            index < self@.pieces(*color).len(),
        ensures
            piece == self@.pieces(*color)[index as int],
    {
        match color {
            PieceColor::WHITE => self.live_white_pieces[index],
            PieceColor::BLACK => self.live_black_pieces[index],
        }
    }

    /// How many live pieces one side has.
    pub fn count_of(&self, color: &PieceColor) -> (count: usize)
        ensures
            count == self@.pieces(*color).len(),
    {
        match color {
            PieceColor::WHITE => self.live_white_pieces.len(),
            PieceColor::BLACK => self.live_black_pieces.len(),
        }
    }

    /// The cached square of the king of one side.
    pub fn king_position(&self, color: &PieceColor) -> (square: (usize, usize))
        ensures
            square == self@.king_square(*color),
    {
        match color {
            PieceColor::WHITE => self.white_king_position,
            PieceColor::BLACK => self.black_king_position,
        }
    }

    /// Exchanges the live piece at a place of the list of one side.
    pub(crate) fn set_piece(&mut self, color: &PieceColor, index: usize, piece: AnyPiece)
        requires
            index < old(self)@.pieces(*color).len(),
        ensures
            final(self)@ == old(self)@.with_piece(*color, index as int, piece),
            final(self).position_board == old(self).position_board,
    {
        match color {
            PieceColor::WHITE => {
                self.live_white_pieces[index] = piece;
            },
            PieceColor::BLACK => {
                self.live_black_pieces[index] = piece;
            },
        }
    }

    /// Whether the king of `king_color` may castle so as to land on file
    /// `king_x_end`: king and rook stand unmoved on their squares, the
    /// squares between them are empty, and the king is attacked neither
    /// where it stands nor on the square it crosses nor where it lands.
    pub fn can_castle_king(
        &mut self,
        king_color: &PieceColor,
        king_x_end: usize,
    ) -> (can_castle: bool)
        requires
            is_chess_board(old(self).position_board@),
        ensures
            final(self)@ == old(self)@,
            is_chess_board(final(self).position_board@),
            can_castle == old(self)@.can_castle(*king_color, king_x_end as int),
    {
        reveal(BoardView::castle_path_safe);
        if king_x_end != 6 && king_x_end != 2 {
            return false;
        }
        let king_coords = self.king_position(king_color);
        if king_coords.0 != 4 || king_coords.1 >= 8 {
            return false;
        }
        let rank = king_coords.1;
        let king_ready = match self.index_of_piece(4, rank, king_color) {
            Some(index) => match self.piece_of(king_color, index) {
                AnyPiece::King(king) => !king.get_has_moved(),
                _ => false,
            },
            None => false,
        };
        if !king_ready {
            return false;
        }
        let rook_x: usize = if king_x_end == 6 {
            7
        } else {
            0
        };
        let rook_ready = match self.index_of_piece(rook_x, rank, king_color) {
            Some(index) => match self.piece_of(king_color, index) {
                AnyPiece::Rook(rook) => !rook.get_has_moved(),
                _ => false,
            },
            None => false,
        };
        if !rook_ready {
            return false;
        }
        let no_pieces_in_path = if king_x_end == 6 {
            self.position_board[5][rank] == QuickPiece::EMPTY && self.position_board[6][rank]
                == QuickPiece::EMPTY
        } else {
            self.position_board[1][rank] == QuickPiece::EMPTY && self.position_board[2][rank]
                == QuickPiece::EMPTY && self.position_board[3][rank] == QuickPiece::EMPTY
        };
        if !no_pieces_in_path {
            return false;
        }
        if self.can_any_piece_check_king(4, rank, king_color) {
            return false;
        }
        let crossed: usize = if king_x_end == 6 {
            5
        } else {
            3
        };
        let crossing_attacked = will_move_be_in_check(
            4,
            rank,
            crossed,
            rank,
            king_color,
            king_color,
            self,
        );
        if crossing_attacked {
            return false;
        }
        let landing_attacked = will_move_be_in_check(
            4,
            rank,
            king_x_end,
            rank,
            king_color,
            king_color,
            self,
        );
        !landing_attacked
    }

    /// Moves king and rook as castling does, and takes from both the right
    /// to castle again.
    fn castle_pieces(&mut self, king_color: &PieceColor, king_x_end: usize)
        requires
            old(self).consistent(),
            old(self)@.castle_pieces_ready(*king_color, king_x_end as int),
            old(self)@.castle_path_clear(*king_color, king_x_end as int),
        ensures
            final(self).consistent(),
            final(self)@ == old(self)@.castled(*king_color, king_x_end as int),
    {
        let ghost before = self@;
        let color = *king_color;
        let rank = self.king_position(king_color).1;
        let rook_x: usize = if king_x_end == 6 {
            7
        } else {
            0
        };
        let rook_end: usize = if king_x_end == 6 {
            5
        } else {
            3
        };
        let king_index = match self.index_of_piece(4, rank, king_color) {
            Some(index) => index,
            None => 0,
        };
        let rook_index = match self.index_of_piece(rook_x, rank, king_color) {
            Some(index) => index,
            None => 0,
        };
        proof {
            self.lemma_files();
            lemma_consistent_shaped(before);
            lemma_king_castled(before, color, king_x_end as int);
            lemma_castled_consistent(before, color, king_x_end as int);
        }
        self.lift(4, rank, king_x_end, rank, king_color);
        assert(self@ == king_castled(before, color, king_x_end as int));
        self.lift(rook_x, rank, rook_end, rank, king_color);
        assert(self@ == rook_castled(before, color, king_x_end as int));
        let king = self.piece_of(king_color, king_index);
        self.set_piece(king_color, king_index, touch(king));
        let rook = self.piece_of(king_color, rook_index);
        self.set_piece(king_color, rook_index, touch(rook));
    }

    /// Castles where the king may: the king lands on file `king_x_end`,
    /// the rook beside it on the file that the king crossed, neither may
    /// castle again, the move stands in the log as the king's, and the
    /// fingerprint of the new placement is counted. Afterwards the king is
    /// not attacked. Where the king may not castle, nothing changes.
    pub fn castle_king(&mut self, king_color: &PieceColor, king_x_end: usize) -> (castled: bool)
        requires
            old(self).consistent(),
        ensures
            final(self).consistent(),
            castled == old(self)@.can_castle(*king_color, king_x_end as int),
            castled ==> final(self)@ == old(self)@.castled(*king_color, king_x_end as int).recorded(
                old(self)@.castle_entry(*king_color, king_x_end as int),
            ).counted(),
            !castled ==> final(self)@ == old(self)@,
            castled ==> !final(self)@.in_check(*king_color),
    {
        proof {
            self.lemma_files();
            lemma_consistent_shaped(self@);
        }
        if !self.can_castle_king(king_color, king_x_end) {
            return false;
        }
        let ghost before = self@;
        let color = *king_color;
        let rank = self.king_position(king_color).1;
        proof {
            lemma_castled_safe(before, color, king_x_end as int);
        }
        self.castle_pieces(king_color, king_x_end);
        let ghost settled = self@;
        proof {
            reveal_strlit("K");
        }
        self.played_moves.push(
            PlayedMove::new(String::from_str("K"), (4, rank), (king_x_end, rank), color, None),
        );
        proof {
            let entry = before.castle_entry(color, king_x_end as int);
            assert("K"@ =~= seq!['K']);
            assert(self@.moves =~= settled.moves.push(entry));
            assert(self@ == settled.recorded(entry));
            lemma_consistent_frame(settled, self@);
        }
        self.add_state_hash();
        true
    }

    /// Exchanges the live piece of `pawn_color` on the given square for the
    /// piece that `promotion_piece` names. Where no piece of that side
    /// stands there, nothing changes.
    pub fn promote_pawn_at(
        &mut self,
        x_coord: usize,
        y_coord: usize,
        pawn_color: &PieceColor,
        promotion_piece: &str,
    )
        requires
            crate::rules::promotion_piece(Some(promotion_piece@), x_coord, y_coord, *pawn_color)
                is Some,
        ensures
            final(self)@ == (match find_at(
                old(self)@.pieces(*pawn_color),
                x_coord as int,
                y_coord as int,
            ) {
                Some(i) => old(self)@.with_piece(
                    *pawn_color,
                    i,
                    crate::rules::promotion_piece(
                        Some(promotion_piece@),
                        x_coord,
                        y_coord,
                        *pawn_color,
                    )->0,
                ),
                None => old(self)@,
            }),
            final(self).position_board == old(self).position_board,
            old(self).consistent() && !(find_at(
                old(self)@.pieces(*pawn_color),
                x_coord as int,
                y_coord as int,
            ) matches Some(i) && old(self)@.pieces(*pawn_color)[i] is King)
                ==> final(self).consistent(),
    {
        proof {
            if self.consistent() {
                crate::position::lemma_find_at_none(
                    self@.pieces(*pawn_color),
                    x_coord as int,
                    y_coord as int,
                );
                let found = find_at(self@.pieces(*pawn_color), x_coord as int, y_coord as int);
                if found is Some {
                    let i = found->0;
                    crate::agreement::lemma_shown_holds(self@, *pawn_color, i);
                    if !(self@.pieces(*pawn_color)[i] is King) {
                        crate::agreement::lemma_replace_consistent(
                            self@,
                            *pawn_color,
                            i,
                            crate::rules::promotion_piece(
                                Some(promotion_piece@),
                                x_coord,
                                y_coord,
                                *pawn_color,
                            )->0,
                        );
                    }
                }
            }
        }
        match self.index_of_piece(x_coord, y_coord, pawn_color) {
            Some(index) => {
                match piece_to_promote_to(Some(promotion_piece), x_coord, y_coord, *pawn_color) {
                    Some(promoted_piece) => {
                        self.set_piece(pawn_color, index, promoted_piece);
                    },
                    None => {},
                }
            },
            None => {},
        }
    }

    /// Tries a capture en passant and takes it back: says whether the king
    /// of `moving_piece_color` would be attacked once its pawn stood on the
    /// end square and the pawn that moved last had left the board.
    pub fn will_passing_move_be_in_check(
        &mut self,
        x_start: usize,
        y_start: usize,
        x_end: usize,
        y_end: usize,
        moving_piece_color: &PieceColor,
    ) -> (found_check: bool)
        requires
            is_chess_board(old(self).position_board@),
            on_board(x_start as int, y_start as int),
            on_board(x_end as int, y_end as int),
            old(self)@.has_piece(*moving_piece_color, x_start as int, y_start as int),
        ensures
            final(self)@ == old(self)@,
            is_chess_board(final(self).position_board@),
            found_check == old(self)@.passed(*moving_piece_color).exposes(
                x_start as int,
                y_start as int,
                x_end as int,
                y_end as int,
                *moving_piece_color,
                *moving_piece_color,
            ),
    {
        let ghost before = self@;
        let opposing = PieceColor::opposite_color(moving_piece_color);
        let taken_from = match self.last_played() {
            Some(played) => played.get_ending_pos(),
            None => {
                return will_move_be_in_check(
                    x_start,
                    y_start,
                    x_end,
                    y_end,
                    moving_piece_color,
                    moving_piece_color,
                    self,
                );
            },
        };
        let index = match self.index_of_piece(taken_from.0, taken_from.1, &opposing) {
            Some(index) => index,
            None => {
                return will_move_be_in_check(
                    x_start,
                    y_start,
                    x_end,
                    y_end,
                    moving_piece_color,
                    moving_piece_color,
                    self,
                );
            },
        };
        let taken = match opposing {
            PieceColor::WHITE => self.live_white_pieces.remove(index),
            PieceColor::BLACK => self.live_black_pieces.remove(index),
        };
        let on_grid = taken_from.0 < 8 && taken_from.1 < 8;
        let shown = if on_grid {
            let shown = self.position_board[taken_from.0][taken_from.1];
            set_square(&mut self.position_board, taken_from.0, taken_from.1, QuickPiece::EMPTY);
            shown
        } else {
            QuickPiece::EMPTY
        };
        assert(self@ == before.passed(*moving_piece_color));
        let found_check = will_move_be_in_check(
            x_start,
            y_start,
            x_end,
            y_end,
            moving_piece_color,
            moving_piece_color,
            self,
        );
        match opposing {
            PieceColor::WHITE => self.live_white_pieces.insert(index, taken),
            PieceColor::BLACK => self.live_black_pieces.insert(index, taken),
        }
        if on_grid {
            set_square(&mut self.position_board, taken_from.0, taken_from.1, shown);
        }
        proof {
            assert(self@.white =~= before.white);
            assert(self@.black =~= before.black);
            assert(self@.grid =~~= before.grid);
        }
        found_check
    }
    /// Plays a move that has been found legal, for good: takes the pawn
    /// that a capture en passant passes off the board, moves the piece,
    /// makes a pawn on its last rank the piece that `promotion_piece`
    /// names, writes the move into the log and counts the fingerprint of
    /// the new placement. Afterwards the mover's king is attacked just
    /// where the trial of the move said that it would be.
    pub fn move_piece(
        &mut self,
        piece_symbol: String,
        moving_x: usize,
        moving_y: usize,
        moving_piece_color: &PieceColor,
        end_x: usize,
        end_y: usize,
        promotion_piece: Option<&str>,
    )
        requires
            old(self).consistent(),
            on_board(moving_x as int, moving_y as int),
            on_board(end_x as int, end_y as int),
            old(self)@.has_piece(*moving_piece_color, moving_x as int, moving_y as int),
            !old(self)@.grid[end_x as int][end_y as int].holds(*moving_piece_color),
            old(self)@.promotes(*moving_piece_color, moving_x as int, moving_y as int, end_y as int)
                ==> crate::rules::promotion_piece(
                str_of(promotion_piece),
                end_x,
                end_y,
                *moving_piece_color,
            ) is Some,
        ensures
            final(self).consistent(),
            final(self)@ == old(self)@.played(
                piece_symbol@,
                *moving_piece_color,
                moving_x as int,
                moving_y as int,
                end_x as int,
                end_y as int,
                str_of(promotion_piece),
            ),
            final(self)@.in_check(*moving_piece_color) == base_of(
                old(self)@,
                piece_symbol@,
                *moving_piece_color,
                moving_x as int,
                moving_y as int,
                end_x as int,
                end_y as int,
            ).exposes(
                moving_x as int,
                moving_y as int,
                end_x as int,
                end_y as int,
                *moving_piece_color,
                *moving_piece_color,
            ),
    {
        let ghost before = self@;
        let color = *moving_piece_color;
        let opposing = PieceColor::opposite_color(moving_piece_color);
        proof {
            self.lemma_files();
            lemma_consistent_shaped(before);
            lemma_base(
                before,
                piece_symbol@,
                color,
                moving_x as int,
                moving_y as int,
                end_x as int,
                end_y as int,
            );
            lemma_played_consistent(
                before,
                piece_symbol@,
                color,
                moving_x as int,
                moving_y as int,
                end_x as int,
                end_y as int,
                str_of(promotion_piece),
            );
        }
        let index = match self.index_of_piece(moving_x, moving_y, moving_piece_color) {
            Some(index) => index,
            None => 0,
        };
        let was_pawn = matches!(self.piece_of(moving_piece_color, index), AnyPiece::Pawn(_));
        let passing = match self.en_passant_status(
            piece_symbol.as_str(),
            moving_piece_color,
            moving_x,
            moving_y,
            end_x,
            end_y,
        ) {
            Ok(capture) => capture,
            Err(_) => false,
        };
        if passing {
            let taken_from = match self.last_played() {
                Some(played) => played.get_ending_pos(),
                None => (0, 0),
            };
            self.remove_piece_color(taken_from.0, taken_from.1, &opposing);
        }
        let ghost base = self@;
        assert(base == base_of(
            before,
            piece_symbol@,
            color,
            moving_x as int,
            moving_y as int,
            end_x as int,
            end_y as int,
        ));
        self.lift(moving_x, moving_y, end_x, end_y, moving_piece_color);
        let back_rank: usize = match moving_piece_color {
            PieceColor::WHITE => 7,
            PieceColor::BLACK => 0,
        };
        let promoted = if was_pawn && end_y == back_rank {
            piece_to_promote_to(promotion_piece, end_x, end_y, color)
        } else {
            None
        };
        let settled = match promoted {
            Some(piece) => piece,
            None => touch(self.piece_of(moving_piece_color, index)),
        };
        self.set_piece(moving_piece_color, index, settled);
        let ghost moved = self@;
        let promotion = match promotion_piece {
            Some(text) => Some(String::from_str(text)),
            None => None,
        };
        self.played_moves.push(
            PlayedMove::new(piece_symbol, (moving_x, moving_y), (end_x, end_y), color, promotion),
        );
        proof {
            let entry = PlayedMoveView {
                piece: piece_symbol@,
                start: (moving_x, moving_y),
                end: (end_x, end_y),
                color,
                promotion: str_of(promotion_piece),
            };
            assert(self@.moves =~= moved.moves.push(entry));
            assert(self@ == moved.recorded(entry));
        }
        self.add_state_hash();
    }

    /// Whether the piece is of the kind that the letter names.
    pub fn is_correct_piece_type(piece: &AnyPiece, compare_type: &str) -> (fits: bool)
        ensures
            fits == fits_kind(*piece, compare_type@),
    {
        is_letter(compare_type, piece.get_letter())
    }

    /// Whether the piece stands where the described move says that its
    /// piece comes from, as far as it says.
    pub fn is_correct_moving_piece(parsed_move: &ParsedMove, piece: &AnyPiece) -> (fits: bool)
        ensures
            fits == fits_origin(*piece, parsed_move@.start),
    {
        let pos = piece.get_pos();
        let starting_x_match = match &parsed_move.starting_coords.0 {
            Some(starting_x_coord) => match read_coordinate(starting_x_coord.as_str()) {
                Some(file) => file == pos.0,
                None => false,
            },
            None => true,
        };
        let starting_y_match = match &parsed_move.starting_coords.1 {
            Some(starting_y_coord) => match read_coordinate(starting_y_coord.as_str()) {
                Some(rank) => rank == pos.1,
                None => false,
            },
            None => true,
        };
        starting_x_match && starting_y_match
    }

    /// Whether the step is the one that only a capture en passant allows
    /// to a pawn of `color`.
    pub fn is_passing_step(
        &self,
        color: &PieceColor,
        start_x: usize,
        start_y: usize,
        end_x: usize,
        end_y: usize,
    ) -> (passing: bool)
        requires
            is_chess_board(self.position_board@),
        ensures
            passing == self@.passing_step(
                *color,
                start_x as int,
                start_y as int,
                end_x as int,
                end_y as int,
            ),
    {
        if start_x >= 8 || start_y >= 8 || end_x >= 8 || end_y >= 8 {
            return false;
        }
        if delta(start_x, end_x) != 1 {
            return false;
        }
        let ahead = match color {
            PieceColor::WHITE => end_y == start_y + 1,
            PieceColor::BLACK => start_y == end_y + 1,
        };
        if !ahead {
            return false;
        }
        match self.position_board[end_x][end_y] {
            QuickPiece::EMPTY => true,
            _ => false,
        }
    }

    /// Whether the piece at a place of the list of `color` fits the
    /// described move and can make its step to the given square.
    pub fn is_candidate(
        &self,
        color: &PieceColor,
        index: usize,
        parsed_move: &ParsedMove,
        end_x: usize,
        end_y: usize,
    ) -> (fit: (bool, bool))
        requires
            is_chess_board(self.position_board@),
            on_board(end_x as int, end_y as int),
            index < self@.pieces(*color).len(),
        ensures
            fit.0 == self@.fits(*color, index as int, parsed_move@),
            fit.1 == self@.candidate(*color, index as int, parsed_move@, end_x as int, end_y as int),
    {
        let piece = self.piece_of(color, index);
        if !Board::is_correct_piece_type(&piece, parsed_move.piece_char.as_str()) {
            return (false, false);
        }
        if !Board::is_correct_moving_piece(parsed_move, &piece) {
            return (false, false);
        }
        let steps = match piece {
            AnyPiece::Pawn(pawn) => {
                let can_step = pawn.can_move(end_x, end_y, &self.position_board)
                    || self.is_passing_step(color, pawn.pos_x, pawn.pos_y, end_x, end_y);
                let delta_x = delta(end_x, pawn.pos_x);
                let fits_step = match &parsed_move.move_type {
                    MoveTypes::Take => delta_x == 1,
                    MoveTypes::Move => delta_x == 0,
                    MoveTypes::Promote(_) => match self.position_board[end_x][end_y] {
                        QuickPiece::EMPTY => delta_x == 0,
                        _ => delta_x == 1,
                    },
                    _ => false,
                };
                can_step && fits_step
            },
            _ => piece.can_move(end_x, end_y, &self.position_board),
        };
        (true, steps)
    }

    /// The place in the list of the side to move of the piece that a
    /// described move to the given square names: the only piece that fits
    /// the description and can make the step, or why there is none.
    pub fn resolve_piece(
        &self,
        parsed_move: &ParsedMove,
        end_x: usize,
        end_y: usize,
    ) -> (resolved: Result<usize, MoveErrorKind>)
        requires
            is_chess_board(self.position_board@),
            on_board(end_x as int, end_y as int),
        ensures
            match resolved {
                Ok(index) => self@.resolution(
                    self@.to_move(),
                    parsed_move@,
                    end_x as int,
                    end_y as int,
                ) == Ok::<int, MoveErrorKind>(index as int) && index < self@.pieces(
                    self@.to_move(),
                ).len() && self@.candidate(
                    self@.to_move(),
                    index as int,
                    parsed_move@,
                    end_x as int,
                    end_y as int,
                ),
                Err(kind) => self@.resolution(
                    self@.to_move(),
                    parsed_move@,
                    end_x as int,
                    end_y as int,
                ) == Err::<int, MoveErrorKind>(kind),
            },
    {
        let color = PieceColor::opposite_color(&self.last_move_color);
        let count = self.count_of(&color);
        let ghost b = self@;
        let ghost m = parsed_move@;
        let mut found: Option<usize> = None;
        let mut several = false;
        let mut fitting = false;
        let mut index: usize = 0;
        while index < count
            invariant
                is_chess_board(self.position_board@),
                on_board(end_x as int, end_y as int),
                b == self@,
                m == parsed_move@,
                color == b.to_move(),
                count == b.pieces(color).len(),
                index <= count,
                found matches Some(f) ==> f < index && b.candidate(
                    color,
                    f as int,
                    m,
                    end_x as int,
                    end_y as int,
                ),
                found is None ==> !several && forall|j: int|
                    0 <= j < index ==> !b.candidate(color, j, m, end_x as int, end_y as int),
                several ==> exists|j: int|
                    0 <= j < index && j != found->0 && b.candidate(
                        color,
                        j,
                        m,
                        end_x as int,
                        end_y as int,
                    ),
                !several && found is Some ==> forall|j: int|
                    0 <= j < index && b.candidate(color, j, m, end_x as int, end_y as int) ==> j
                        == found->0,
                fitting <==> exists|j: int| 0 <= j < index && b.fits(color, j, m),
            decreases count - index,
        {
            let fit = self.is_candidate(&color, index, parsed_move, end_x, end_y);
            if fit.0 {
                fitting = true;
            }
            if fit.1 {
                match found {
                    Some(_) => {
                        several = true;
                    },
                    None => {
                        found = Some(index);
                    },
                }
            }
            index = index + 1;
        }
        match found {
            Some(first) => {
                if several {
                    Err(MoveErrorKind::Ambiguous)
                } else {
                    Ok(first)
                }
            },
            None => {
                if fitting {
                    Err(MoveErrorKind::IllegalGeometry)
                } else {
                    Err(MoveErrorKind::NoMatchingPiece)
                }
            },
        }
    }

    /// The piece of the side to move that a described move names: the only
    /// one that fits the description and can make the step, if there is
    /// exactly one and the destination is a square of the board.
    pub fn find_start_piece_from_move(&mut self, parsed_move: &ParsedMove) -> (found: Option<
        &mut AnyPiece,
    >)
        requires
            is_chess_board(old(self).position_board@),
        ensures
            match found {
                Some(piece) => {
                    &&& coordinate_of(parsed_move@.end.0) matches Some(x)
                    &&& coordinate_of(parsed_move@.end.1) matches Some(y)
                    &&& old(self)@.resolution(
                        old(self)@.to_move(),
                        parsed_move@,
                        x as int,
                        y as int,
                    ) matches Ok(i)
                    &&& *piece == old(self)@.pieces(old(self)@.to_move())[i]
                    &&& final(self)@ == old(self)@.with_piece(
                        old(self)@.to_move(),
                        i,
                        *final(piece),
                    )
                },
                None => {
                    &&& final(self)@ == old(self)@
                    &&& !({
                        &&& coordinate_of(parsed_move@.end.0) matches Some(x)
                        &&& coordinate_of(parsed_move@.end.1) matches Some(y)
                        &&& old(self)@.resolution(
                            old(self)@.to_move(),
                            parsed_move@,
                            x as int,
                            y as int,
                        ) is Ok
                    })
                },
            },
    {
        let end_x = match read_coordinate(parsed_move.end_coords.0.as_str()) {
            Some(x) => x,
            None => {
                return None;
            },
        };
        let end_y = match read_coordinate(parsed_move.end_coords.1.as_str()) {
            Some(y) => y,
            None => {
                return None;
            },
        };
        match self.resolve_piece(parsed_move, end_x, end_y) {
            Ok(index) => match self.last_move_color {
                PieceColor::BLACK => Some(&mut self.live_white_pieces[index]),
                PieceColor::WHITE => Some(&mut self.live_black_pieces[index]),
            },
            Err(_) => None,
        }
    }
    /// The move of the side to move that a description names, or why it
    /// names none.
    pub fn resolve_move(&self, parsed_move: &ParsedMove) -> (outcome: Result<Move, MoveError>)
        requires
            is_chess_board(self.position_board@),
        ensures
            match self@.resolved(parsed_move@) {
                Ok(mv) => outcome == Ok::<Move, MoveError>(mv),
                Err(kind) => {
                    &&& outcome is Err
                    &&& outcome->Err_0.kind == kind
                    &&& outcome->Err_0.details@ == sentence(kind)@
                },
            },
    {
        let color = PieceColor::opposite_color(&self.last_move_color);
        match &parsed_move.move_type {
            MoveTypes::Castle(king_end_x) => {
                let king = self.king_position(&color);
                return Ok(
                    Move {
                        piece: 'K',
                        from: king,
                        to: (*king_end_x, king.1),
                        tag: MoveTag::Castle(*king_end_x),
                    },
                );
            },
            MoveTypes::FinalResult(_) => {
                return Err(refusal(MoveErrorKind::Malformed));
            },
            _ => {},
        }
        let end_x = match read_coordinate(parsed_move.end_coords.0.as_str()) {
            Some(x) => x,
            None => {
                return Err(refusal(MoveErrorKind::Malformed));
            },
        };
        let end_y = match read_coordinate(parsed_move.end_coords.1.as_str()) {
            Some(y) => y,
            None => {
                return Err(refusal(MoveErrorKind::Malformed));
            },
        };
        let index = match self.resolve_piece(parsed_move, end_x, end_y) {
            Ok(index) => index,
            Err(kind) => {
                return Err(refusal(kind));
            },
        };
        let moving_piece = self.piece_of(&color, index);
        let from = moving_piece.get_pos();
        let passing = match self.en_passant_status(
            parsed_move.piece_char.as_str(),
            &color,
            from.0,
            from.1,
            end_x,
            end_y,
        ) {
            Ok(passing) => passing,
            Err(fault) => {
                return Err(refusal(MoveErrorKind::InvalidEnPassant(fault)));
            },
        };
        let tag = if passing {
            MoveTag::EnPassantCapture
        } else if self.is_promotion(&color, from.0, from.1, end_y) {
            let named: Option<&str> = match &parsed_move.move_type {
                MoveTypes::Promote(piece_promote) => Some(piece_promote.as_str()),
                _ => None,
            };
            match piece_to_promote_to(named, end_x, end_y, color) {
                Some(piece) => MoveTag::Promotion(piece.get_letter()),
                None => {
                    return Err(refusal(MoveErrorKind::InvalidPromotion));
                },
            }
        } else {
            match self.position_board[end_x][end_y] {
                QuickPiece::EMPTY => MoveTag::Ordinary,
                _ => MoveTag::Capture,
            }
        };
        Ok(Move { piece: moving_piece.get_letter(), from, to: (end_x, end_y), tag })
    }

    /// Whether the first piece of `color` on the start square is a pawn
    /// that reaches its last rank on rank `end_y`.
    pub fn is_promotion(
        &self,
        color: &PieceColor,
        start_x: usize,
        start_y: usize,
        end_y: usize,
    ) -> (promotes: bool)
        ensures
            promotes == self@.promotes(*color, start_x as int, start_y as int, end_y as int),
    {
        let back_rank: usize = match color {
            PieceColor::WHITE => 7,
            PieceColor::BLACK => 0,
        };
        if end_y != back_rank {
            return false;
        }
        match self.index_of_piece(start_x, start_y, color) {
            Some(index) => matches!(self.piece_of(color, index), AnyPiece::Pawn(_)),
            None => false,
        }
    }

    /// Whether the move is legal for the side to move: tries it, and
    /// leaves the position as it was.
    pub fn is_move_allowed(&mut self, mv: &Move) -> (legal: bool)
        requires
            is_chess_board(old(self).position_board@),
        ensures
            final(self)@ == old(self)@,
            is_chess_board(final(self).position_board@),
            legal == old(self)@.allowed(*mv),
    {
        let color = PieceColor::opposite_color(&self.last_move_color);
        match mv.tag {
            MoveTag::Castle(file) => self.can_castle_king(&color, file),
            _ => {
                if mv.from.0 >= 8 || mv.from.1 >= 8 || mv.to.0 >= 8 || mv.to.1 >= 8 {
                    return false;
                }
                if self.index_of_piece(mv.from.0, mv.from.1, &color).is_none() {
                    return false;
                }
                let exposed = match mv.tag {
                    MoveTag::EnPassantCapture => self.will_passing_move_be_in_check(
                        mv.from.0,
                        mv.from.1,
                        mv.to.0,
                        mv.to.1,
                        &color,
                    ),
                    _ => will_move_be_in_check(
                        mv.from.0,
                        mv.from.1,
                        mv.to.0,
                        mv.to.1,
                        &color,
                        &color,
                        self,
                    ),
                };
                !exposed
            },
        }
    }

    /// Plays a legal move of the side to move for good and passes the turn
    /// on. Afterwards grid and lists agree as before, and the king of the
    /// side that moved is not attacked.
    pub fn apply_move(&mut self, mv: &Move)
        requires
            old(self).consistent(),
            old(self)@.admits(*mv),
            old(self)@.allowed(*mv),
        ensures
            final(self).consistent(),
            final(self)@ == old(self)@.committed(*mv),
            !final(self)@.in_check(old(self)@.to_move()),
    {
        let ghost before = self@;
        let color = PieceColor::opposite_color(&self.last_move_color);
        match mv.tag {
            MoveTag::Castle(file) => {
                self.castle_king(&color, file);
            },
            _ => {
                let promotion: Option<&str> = match mv.tag {
                    MoveTag::Promotion(letter) => Some(letter_text(letter)),
                    _ => None,
                };
                proof {
                    lemma_find_at_none(
                        before.pieces(color),
                        mv.from.0 as int,
                        mv.from.1 as int,
                    );
                    if mv.tag is Promotion {
                        assert(promotion_text(mv.tag)->0[0] == mv.tag->Promotion_0);
                    }
                }
                self.move_piece(
                    String::from_str(letter_text(mv.piece)),
                    mv.from.0,
                    mv.from.1,
                    &color,
                    mv.to.0,
                    mv.to.1,
                    promotion,
                );
            },
        }
        let ghost settled = self@;
        self.last_move_color = color;
        proof {
            lemma_consistent_frame(settled, self@);
        }
    }

    /// Plays a described move of the side to move, or refuses it and
    /// leaves the position as it was: finds the move that the description
    /// names, tries it, and plays it where it is legal. After a move that
    /// was played the mover's own king is not attacked.
    pub fn play_move(&mut self, parsed_move: ParsedMove) -> (outcome: Result<(), MoveError>)
        requires
            old(self).consistent(),
        ensures
            final(self).consistent(),
            match old(self)@.answer(parsed_move@) {
                Ok(after) => outcome is Ok && final(self)@ == after,
                Err(kind) => {
                    &&& outcome is Err
                    &&& outcome->Err_0.kind == kind
                    &&& outcome->Err_0.details@ == sentence(kind)@
                    &&& final(self)@ == old(self)@
                },
            },
            outcome is Ok ==> !final(self)@.in_check(old(self)@.to_move()),
    {
        proof {
            self.lemma_files();
            lemma_consistent_shaped(self@);
        }
        let mv = match self.resolve_move(&parsed_move) {
            Ok(mv) => mv,
            Err(error) => {
                return Err(error);
            },
        };
        proof {
            lemma_resolved_admits(self@, parsed_move@);
        }
        if !self.is_move_allowed(&mv) {
            return match mv.tag {
                MoveTag::Castle(_) => Err(refusal(MoveErrorKind::InvalidCastle)),
                _ => Err(refusal(MoveErrorKind::SelfCheck)),
            };
        }
        self.apply_move(&mv);
        Ok(())
    }
}

} // verus!