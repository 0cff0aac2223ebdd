//! The questions that a game asks of a position: check, checkmate,
//! stalemate, a draw by repetition, and whether a move would leave a king
//! attacked.
use crate::board::{
    law_trial_leaves_no_trace, refusal, sentence, Board, MoveError, MoveErrorKind,
};
use crate::parser::{described, parse_move};
use crate::piece_types::PieceColor;
use crate::pieces::{is_chess_board, on_board, AnyPiece, PieceMove};
use crate::position::{lemma_find_at_none, thrice, BoardView};
use vstd::prelude::*;
use vstd::std_specs::iter::IteratorSpec;

verus! {

/// Whether the king of the side that did not move last is attacked by the
/// side that did.
pub fn is_board_in_check(last_move: &PieceColor, board: &Board) -> (check: bool)
    requires
        is_chess_board(board.position_board@),
    ensures
        check == board@.in_check(last_move.opposite()),
{
    let opposing_king = match last_move {
        PieceColor::WHITE => board.black_king_position,
        PieceColor::BLACK => board.white_king_position,
    };
    let king_color = PieceColor::opposite_color(last_move);
    board.can_any_piece_check_king(opposing_king.0, opposing_king.1, &king_color)
}

/// Whether a draw by repetition can be claimed: some fingerprint of a
/// position has occurred three times.
pub fn is_board_draw_by_repetition(board: &Board) -> (draw: bool)
    ensures
        draw == thrice(board@.counts),
{
    broadcast use vstd::std_specs::hash::group_hash_axioms;

    let mut found = false;
    let ghost counts = board.board_state_hashes@;
    let ghost all = vstd::std_specs::hash::spec_values_iter(&board.board_state_hashes).remaining();
    for count in it: board.board_state_hashes.values()
        invariant
            it.seq() == all,
            found == (exists|i: int| 0 <= i < it.index() && *#[trigger] it.seq()[i] >= 3),
    {
        if *count >= 3 {
            found = true;
        }
    }
    proof {
        let values = all.unref();
        assert(values.to_set() == counts.values());
        if found {
            let i = choose|i: int| 0 <= i < all.len() && *#[trigger] all[i] >= 3;
            assert(values[i] == *all[i]);
            assert(values.to_set().contains(values[i]));
            assert(counts.contains_value(values[i]));
        }
        if thrice(counts) {
            let hash = choose|hash: u64| counts.contains_key(hash) && #[trigger] counts[hash] >= 3;
            assert(counts.contains_value(counts[hash]));
            assert(values.to_set().contains(counts[hash]));
            let i = choose|i: int| 0 <= i < values.len() && values[i] == counts[hash];
            assert(*all[i] >= 3);
        }
    }
    found
}

/// Tries a move and takes it back: says whether the king of
/// `king_color_being_checked` would be attacked once the piece of
/// `moving_piece_color` on the start square stood on the end square. The
/// position is the same after the call as before it, whatever the move.
pub fn will_move_be_in_check(
    x_start: usize,
    y_start: usize,
    x_end: usize,
    y_end: usize,
    moving_piece_color: &PieceColor,
    king_color_being_checked: &PieceColor,
    board: &mut Board,
) -> (found_check: bool)
    requires
        is_chess_board(old(board).position_board@),
        on_board(x_start as int, y_start as int),
        on_board(x_end as int, y_end as int),
        old(board)@.has_piece(*moving_piece_color, x_start as int, y_start as int),
    ensures
        final(board)@ == old(board)@,
        is_chess_board(final(board).position_board@),
        found_check == old(board)@.exposes(
            x_start as int,
            y_start as int,
            x_end as int,
            y_end as int,
            *moving_piece_color,
            *king_color_being_checked,
        ),
{
    let ghost before = board@;
    proof {
        board.lemma_files();
    }
    let trial = board.lift(x_start, y_start, x_end, y_end, moving_piece_color);
    let king_pos = match king_color_being_checked {
        PieceColor::WHITE => board.white_king_position,
        PieceColor::BLACK => board.black_king_position,
    };
    let found_check = board.can_any_piece_check_king(
        king_pos.0,
        king_pos.1,
        king_color_being_checked,
    );
    proof {
        lemma_find_at_none(
            before.pieces(*moving_piece_color),
            x_start as int,
            y_start as int,
        );
        lemma_find_at_none(
            before.pieces(moving_piece_color.opposite()),
            x_end as int,
            y_end as int,
        );
        law_trial_leaves_no_trace(
            before,
            trial,
            x_start as int,
            y_start as int,
            x_end as int,
            y_end as int,
            *moving_piece_color,
        );
    }
    board.put_back(&trial, x_start, y_start, x_end, y_end, moving_piece_color);
    found_check
}

/// The name of the picture that shows a piece of the given kind and side.
pub fn file_name_from_piece(any_piece: &AnyPiece, piece_color: &PieceColor) -> (name: String)
    ensures
        name@ == picture_name(*any_piece, *piece_color)@,
{
    String::from_str(
        match piece_color {
            PieceColor::WHITE => match any_piece {
                AnyPiece::King(_) => "GreenKing.png",
                AnyPiece::Queen(_) => "GreenQueen.png",
                AnyPiece::Bishop(_) => "GreenBishop.png",
                AnyPiece::Knight(_) => "GreenKnight.png",
                AnyPiece::Rook(_) => "GreenRook.png",
                AnyPiece::Pawn(_) => "GreenPawn.png",
            },
            PieceColor::BLACK => match any_piece {
                AnyPiece::King(_) => "BlackKing.png",
                AnyPiece::Queen(_) => "BlackQueen.png",
                AnyPiece::Bishop(_) => "BlackBishop.png",
                AnyPiece::Knight(_) => "BlackKnight.png",
                AnyPiece::Rook(_) => "BlackRook.png",
                AnyPiece::Pawn(_) => "BlackPawn.png",
            },
        },
    )
}

/// The picture of each kind of piece: white pieces are drawn in green.
pub open spec fn picture_name(piece: AnyPiece, color: PieceColor) -> &'static str {
    match color {
        PieceColor::WHITE => match piece {
            AnyPiece::King(_) => "GreenKing.png",
            AnyPiece::Queen(_) => "GreenQueen.png",
            AnyPiece::Bishop(_) => "GreenBishop.png",
            AnyPiece::Knight(_) => "GreenKnight.png",
            AnyPiece::Rook(_) => "GreenRook.png",
            AnyPiece::Pawn(_) => "GreenPawn.png",
        },
        PieceColor::BLACK => match piece {
            AnyPiece::King(_) => "BlackKing.png",
            AnyPiece::Queen(_) => "BlackQueen.png",
            AnyPiece::Bishop(_) => "BlackBishop.png",
            AnyPiece::Knight(_) => "BlackKnight.png",
            AnyPiece::Rook(_) => "BlackRook.png",
            AnyPiece::Pawn(_) => "BlackPawn.png",
        },
    }
}

/// Whether the piece at a place of the list of `piece_color` may move to
/// the given square. The position is the same after the call as before it.
pub fn is_legal_step(
    piece_color: &PieceColor,
    index: usize,
    x_coord: usize,
    y_coord: usize,
    game_board: &mut Board,
) -> (legal: bool)
    requires
        is_chess_board(old(game_board).position_board@),
        index < old(game_board)@.pieces(*piece_color).len(),
    ensures
        final(game_board)@ == old(game_board)@,
        is_chess_board(final(game_board).position_board@),
        legal == old(game_board)@.legal_step(
            *piece_color,
            index as int,
            x_coord as int,
            y_coord as int,
        ),
{
    reveal(BoardView::legal_step);
    let ghost b = game_board@;
    let piece = game_board.piece_of(piece_color, index);
    let (from_x, from_y) = piece.get_pos();
    if !(x_coord < 8 && y_coord < 8 && from_x < 8 && from_y < 8) {
        return false;
    }
    proof {
        lemma_find_at_none(b.pieces(*piece_color), from_x as int, from_y as int);
        assert(b.pieces(*piece_color)[index as int].stands_on(from_x as int, from_y as int));
    }
    if piece.can_move(x_coord, y_coord, &game_board.position_board) {
        if !will_move_be_in_check(
            from_x,
            from_y,
            x_coord,
            y_coord,
            piece_color,
            piece_color,
            game_board,
        ) {
            return true;
        }
    }
    let is_pawn = matches!(piece, AnyPiece::Pawn(_));
    if !is_pawn {
        return false;
    }
    if !game_board.is_passing_step(piece_color, from_x, from_y, x_coord, y_coord) {
        return false;
    }
    if game_board.en_passant_fault(piece_color, x_coord, y_coord).is_some() {
        return false;
    }
    !game_board.will_passing_move_be_in_check(from_x, from_y, x_coord, y_coord, piece_color)
}

/// Whether `piece_color` has a move: whether one of its pieces may move to
/// one of the squares that the shape of its movement allows, or its king
/// may castle. The position is the same after the call as before it.
pub fn can_any_piece_move(piece_color: &PieceColor, game_board: &mut Board) -> (movable: bool)
    requires
        is_chess_board(old(game_board).position_board@),
    ensures
        final(game_board)@ == old(game_board)@,
        is_chess_board(final(game_board).position_board@),
        movable == old(game_board)@.can_move(*piece_color),
{
    let ghost b = game_board@;
    let color = *piece_color;
    let count = game_board.count_of(piece_color);
    let mut index: usize = 0;
    while index < count
        invariant
            game_board@ == b,
            b == old(game_board)@,
            is_chess_board(game_board.position_board@),
            color == *piece_color,
            count == b.pieces(color).len(),
            index <= count,
            forall|i: int, k: int| 0 <= i < index ==> !b.listed_step(color, i, k),
        decreases count - index,
    {
        let piece = game_board.piece_of(piece_color, index);
        let possible_moves = piece.moves_on_board();
        let mut place: usize = 0;
        while place < possible_moves.len()
            invariant
                game_board@ == b,
                b == old(game_board)@,
                is_chess_board(game_board.position_board@),
                color == *piece_color,
                index < b.pieces(color).len(),
                possible_moves@ == b.pieces(color)[index as int].reachable(),
                place <= possible_moves.len(),
                forall|k: int| 0 <= k < place ==> !b.listed_step(color, index as int, k),
            decreases possible_moves.len() - place,
        {
            let (x, y) = possible_moves[place];
            if is_legal_step(piece_color, index, x, y, game_board) {
                assert(b.listed_step(color, index as int, place as int));
                return true;
            }
            place = place + 1;
        }
        index = index + 1;
    }
    if game_board.can_castle_king(piece_color, 6) {
        return true;
    }
    if game_board.can_castle_king(piece_color, 2) {
        return true;
    }
    false
}

/// Whether the side that did not move last is checkmated: its king is
/// attacked and it has no move.
pub fn is_board_check_mate(last_move: &PieceColor, board: &mut Board) -> (mate: bool)
    requires
        is_chess_board(old(board).position_board@),
    ensures
        final(board)@ == old(board)@,
        is_chess_board(final(board).position_board@),
        mate == old(board)@.checkmated(last_move.opposite()),
{
    let opposing_king_color = PieceColor::opposite_color(last_move);
    if !is_board_in_check(last_move, board) {
        return false;
    }
    !can_any_piece_move(&opposing_king_color, board)
}

/// Whether either side is stalemated: its king is not attacked and it has
/// no move.
pub fn is_board_stale_mate(board: &mut Board) -> (stale: bool)
    requires
        is_chess_board(old(board).position_board@),
    ensures
        final(board)@ == old(board)@,
        is_chess_board(final(board).position_board@),
        stale == (old(board)@.stalemated(PieceColor::WHITE) || old(board)@.stalemated(
            PieceColor::BLACK,
        )),
{
    if !is_board_in_check(&PieceColor::BLACK, board) && !can_any_piece_move(
        &PieceColor::WHITE,
        board,
    ) {
        return true;
    }
    if !is_board_in_check(&PieceColor::WHITE, board) && !can_any_piece_move(
        &PieceColor::BLACK,
        board,
    ) {
        return true;
    }
    false
}

/// Reads a move in notation and plays it for the side to move, or refuses
/// it and leaves the position as it was.
pub fn player_move(game_board: &mut Board, player_input: &str) -> (outcome: Result<(), MoveError>)
    requires
        old(game_board).consistent(),
    ensures
        final(game_board).consistent(),
        match described(player_input@) {
            Some(parsed) => match old(game_board)@.answer(parsed) {
                Ok(after) => outcome is Ok && final(game_board)@ == after,
                Err(kind) => {
                    &&& outcome is Err
                    &&& outcome->Err_0.kind == kind
                    &&& outcome->Err_0.details@ == sentence(kind)@
                    &&& final(game_board)@ == old(game_board)@
                },
            },
            None => {
                &&& outcome is Err
                &&& outcome->Err_0.kind == MoveErrorKind::Unreadable
                &&& outcome->Err_0.details@ == sentence(MoveErrorKind::Unreadable)@
                &&& final(game_board)@ == old(game_board)@
            },
        },
{
    match parse_move(player_input) {
        Ok(parsed_move) => game_board.play_move(parsed_move),
        Err(_) => Err(refusal(MoveErrorKind::Unreadable)),
    }
}

} // verus!