use chess::board::{Board, EnPassantFault, MoveErrorKind};
use chess::game::{
    can_any_piece_move, is_board_check_mate, is_board_draw_by_repetition, is_board_in_check,
    is_board_stale_mate, is_legal_step, player_move,
};
use chess::parser::{CheckOrCheckMate, GameResult, MoveTypes, ParsedMove};
use chess::piece_types::{PieceColor, QuickPiece};
use chess::pieces::king::King;
use chess::pieces::pawn::Pawn;
use chess::pieces::queen::Queen;
use chess::pieces::rook::Rook;
use chess::pieces::{AnyPiece, PieceMove};
use chess::rules::{Move, MoveTag};
use std::collections::HashMap;

fn play_all(board: &mut Board, moves: &[&str]) {
    for text in moves {
        if let Err(error) = player_move(board, text) {
            panic!("{} was refused: {:?}", text, error);
        }
        assert!(board.is_consistent(), "grid and lists disagree after {}", text);
    }
}

fn refused(board: &mut Board, text: &str) -> MoveErrorKind {
    let grid = board.position_board.clone();
    let white = board.live_white_pieces.clone();
    let black = board.live_black_pieces.clone();
    let turn = board.last_move_color;
    let played = board.played_moves.len();
    let kind = match player_move(board, text) {
        Ok(_) => panic!("{} was played", text),
        Err(error) => error.kind,
    };
    assert_eq!(board.position_board, grid);
    assert_eq!(board.live_white_pieces, white);
    assert_eq!(board.live_black_pieces, black);
    assert_eq!(board.last_move_color, turn);
    assert_eq!(board.played_moves.len(), played);
    kind
}

fn empty_board(last_move_color: PieceColor) -> Board {
    let mut files = Vec::new();
    for _ in 0..8 {
        files.push(vec![QuickPiece::EMPTY; 8]);
    }
    Board {
        position_board: files,
        live_white_pieces: vec![],
        live_black_pieces: vec![],
        white_king_position: (0, 0),
        black_king_position: (0, 0),
        last_move_color,
        played_moves: Vec::new(),
        board_state_hashes: HashMap::new(),
    }
}

fn put(board: &mut Board, piece: AnyPiece) {
    let (x, y) = piece.get_pos();
    board.position_board[x][y] = piece.quick_piece();
    if let AnyPiece::King(_) = piece {
        match piece.get_color() {
            PieceColor::WHITE => board.white_king_position = (x, y),
            PieceColor::BLACK => board.black_king_position = (x, y),
        }
    }
    match piece.get_color() {
        PieceColor::WHITE => board.live_white_pieces.push(piece),
        PieceColor::BLACK => board.live_black_pieces.push(piece),
    }
}

fn home_pawn(x: usize, y: usize, color: PieceColor) -> AnyPiece {
    let home = match color {
        PieceColor::WHITE => 1,
        PieceColor::BLACK => 6,
    };
    let mut pawn = Pawn::new(x, home, color);
    pawn.set_pos(x, y);
    AnyPiece::Pawn(pawn)
}

#[test]
fn en_passant_takes_the_pawn_that_passed() {
    let mut board = Board::new();
    play_all(&mut board, &["c4", "h6", "c5", "b5", "cxb6"]);
    assert_eq!(board.position_board[1][4], QuickPiece::EMPTY);
    assert_eq!(board.position_board[1][5], QuickPiece::PIECE(PieceColor::WHITE));
    assert_eq!(board.position_board[2][4], QuickPiece::EMPTY);
    assert_eq!(board.live_black_pieces.len(), 15);
    assert_eq!(board.live_white_pieces.len(), 16);
    assert!(board.index_of_piece(1, 4, &PieceColor::BLACK).is_none());
    assert!(board.index_of_piece(1, 6, &PieceColor::BLACK).is_none());
    assert!(board.index_of_piece(1, 5, &PieceColor::WHITE).is_some());
    let last = board.played_moves.last().unwrap();
    assert_eq!(last.piece_string, "P");
    assert_eq!(last.starting_position, (2, 4));
    assert_eq!(last.get_ending_pos(), (1, 5));
    assert_eq!(last.moving_color, PieceColor::WHITE);
    assert_eq!(board.last_move_color, PieceColor::WHITE);
}

#[test]
fn en_passant_for_black_takes_the_pawn_that_passed() {
    let mut board = Board::new();
    play_all(&mut board, &["h3", "d5", "h4", "d4", "e4", "dxe3"]);
    assert_eq!(board.position_board[4][3], QuickPiece::EMPTY);
    assert_eq!(board.position_board[4][2], QuickPiece::PIECE(PieceColor::BLACK));
    assert_eq!(board.live_white_pieces.len(), 15);
    assert!(board.index_of_piece(4, 3, &PieceColor::WHITE).is_none());
}

#[test]
fn en_passant_one_move_late_is_refused() {
    let mut board = Board::new();
    play_all(&mut board, &["c4", "b5", "c5", "e6"]);
    assert_eq!(
        refused(&mut board, "cxb6"),
        MoveErrorKind::InvalidEnPassant(EnPassantFault::WrongFile)
    );
    assert_eq!(board.position_board[1][4], QuickPiece::PIECE(PieceColor::BLACK));
}

#[test]
fn en_passant_needs_the_passing_rank() {
    let mut board = Board::new();
    play_all(&mut board, &["e4", "a6"]);
    assert_eq!(
        refused(&mut board, "exd5"),
        MoveErrorKind::InvalidEnPassant(EnPassantFault::NotPassingRank)
    );
}

#[test]
fn en_passant_needs_a_last_move() {
    let mut board = empty_board(PieceColor::BLACK);
    put(&mut board, AnyPiece::King(King::new(4, 0, PieceColor::WHITE)));
    put(&mut board, AnyPiece::King(King::new(4, 7, PieceColor::BLACK)));
    put(&mut board, home_pawn(2, 4, PieceColor::WHITE));
    assert!(board.is_consistent());
    assert_eq!(
        refused(&mut board, "cxb6"),
        MoveErrorKind::InvalidEnPassant(EnPassantFault::NoLastMove)
    );
}

#[test]
fn en_passant_needs_a_pawn_to_have_moved_last() {
    let mut board = Board::new();
    play_all(&mut board, &["c4", "Nf6", "c5", "Ng8"]);
    assert_eq!(
        refused(&mut board, "cxb6"),
        MoveErrorKind::InvalidEnPassant(EnPassantFault::LastMoveNotPawn)
    );
}

#[test]
fn en_passant_needs_the_pawn_right_behind() {
    let mut board = Board::new();
    play_all(&mut board, &["c4", "b5", "c5", "b4"]);
    assert_eq!(
        refused(&mut board, "cxb6"),
        MoveErrorKind::InvalidEnPassant(EnPassantFault::NotAdjacent)
    );
}

#[test]
fn en_passant_needs_a_double_step() {
    let mut board = Board::new();
    play_all(&mut board, &["c4", "b6", "c5", "b5"]);
    assert_eq!(
        refused(&mut board, "cxb6"),
        MoveErrorKind::InvalidEnPassant(EnPassantFault::NotDoubleStep)
    );
}

#[test]
fn valid_en_passant_tells_the_three_verdicts() {
    let mut board = Board::new();
    play_all(&mut board, &["c4", "h6", "c5", "b5"]);
    assert_eq!(board.valid_en_passant("P", 2, 4, 1, 5).unwrap(), true);
    assert_eq!(board.valid_en_passant("P", 2, 4, 2, 5).unwrap(), false);
    assert_eq!(board.valid_en_passant("N", 2, 4, 1, 5).unwrap(), false);
    assert_eq!(
        board.valid_en_passant("P", 2, 4, 3, 5).unwrap_err().kind,
        MoveErrorKind::InvalidEnPassant(EnPassantFault::WrongFile)
    );
}

#[test]
fn en_passant_that_bares_the_king_is_refused() {
    // White king h5, white pawn d5, black rook a5: the black pawn that
    // passes on c5 is all that stands between rook and king once the white
    // pawn has left the rank.
    let mut board = empty_board(PieceColor::WHITE);
    put(&mut board, AnyPiece::King(King::new(7, 4, PieceColor::WHITE)));
    put(&mut board, AnyPiece::King(King::new(4, 7, PieceColor::BLACK)));
    put(&mut board, home_pawn(3, 4, PieceColor::WHITE));
    put(&mut board, AnyPiece::Rook(Rook::new(0, 4, PieceColor::BLACK)));
    put(&mut board, AnyPiece::Pawn(Pawn::new(2, 6, PieceColor::BLACK)));
    assert!(board.is_consistent());
    play_all(&mut board, &["c5"]);
    assert_eq!(refused(&mut board, "dxc6"), MoveErrorKind::SelfCheck);
}

#[test]
fn castling_moves_king_and_rook_once() {
    let mut board = Board::new();
    play_all(&mut board, &["e4", "e5", "Nf3", "Nc6", "Bc4", "Bc5", "O-O"]);
    assert_eq!(board.white_king_position, (6, 0));
    assert_eq!(board.position_board[6][0], QuickPiece::KING(PieceColor::WHITE));
    assert_eq!(board.position_board[5][0], QuickPiece::PIECE(PieceColor::WHITE));
    assert_eq!(board.position_board[4][0], QuickPiece::EMPTY);
    assert_eq!(board.position_board[7][0], QuickPiece::EMPTY);
    let king = board.index_of_piece(6, 0, &PieceColor::WHITE).unwrap();
    match board.live_white_pieces[king] {
        AnyPiece::King(king) => assert!(king.get_has_moved()),
        _ => panic!("no king on g1"),
    }
    let rook = board.index_of_piece(5, 0, &PieceColor::WHITE).unwrap();
    match board.live_white_pieces[rook] {
        AnyPiece::Rook(rook) => assert!(rook.get_has_moved()),
        _ => panic!("no rook on f1"),
    }
    assert_eq!(board.played_moves.len(), 7);
    assert_eq!(board.played_moves.last().unwrap().piece_string, "K");
    assert_eq!(board.played_moves.last().unwrap().starting_position, (4, 0));
    assert_eq!(board.played_moves.last().unwrap().get_ending_pos(), (6, 0));
    assert_eq!(board.last_move_color, PieceColor::WHITE);
    assert!(!is_board_in_check(&PieceColor::BLACK, &board));
}

#[test]
fn castling_is_refused_once_the_king_has_moved() {
    let mut board = Board::new();
    play_all(
        &mut board,
        &["e4", "e5", "Nf3", "Nc6", "Bc4", "Bc5", "Ke2", "a6", "Ke1", "a5"],
    );
    assert!(!board.can_castle_king(&PieceColor::WHITE, 6));
    assert_eq!(refused(&mut board, "O-O"), MoveErrorKind::InvalidCastle);
}

#[test]
fn castling_is_refused_once_the_rook_has_moved() {
    let mut board = Board::new();
    play_all(
        &mut board,
        &["e4", "e5", "Nf3", "Nc6", "Bc4", "Bc5", "Rg1", "a6", "Rh1", "a5"],
    );
    assert_eq!(refused(&mut board, "O-O"), MoveErrorKind::InvalidCastle);
}

#[test]
fn castling_long_needs_every_square_between_empty() {
    let mut board = Board::new();
    play_all(&mut board, &["d4", "d5", "Bf4", "Bf5", "Qd3", "Qd6"]);
    assert_eq!(board.position_board[1][0], QuickPiece::PIECE(PieceColor::WHITE));
    assert!(!board.can_castle_king(&PieceColor::WHITE, 2));
    assert_eq!(refused(&mut board, "O-O-O"), MoveErrorKind::InvalidCastle);
    play_all(&mut board, &["Nc3", "Nc6"]);
    assert!(board.can_castle_king(&PieceColor::WHITE, 2));
    play_all(&mut board, &["O-O-O", "O-O-O"]);
    assert_eq!(board.white_king_position, (2, 0));
    assert_eq!(board.position_board[3][0], QuickPiece::PIECE(PieceColor::WHITE));
    assert_eq!(board.position_board[0][0], QuickPiece::EMPTY);
    assert_eq!(board.black_king_position, (2, 7));
    assert_eq!(board.position_board[3][7], QuickPiece::PIECE(PieceColor::BLACK));
}

fn castling_corner() -> Board {
    let mut board = empty_board(PieceColor::BLACK);
    put(&mut board, AnyPiece::King(King::new(4, 0, PieceColor::WHITE)));
    put(&mut board, AnyPiece::Rook(Rook::new(0, 0, PieceColor::WHITE)));
    put(&mut board, AnyPiece::Rook(Rook::new(7, 0, PieceColor::WHITE)));
    put(&mut board, AnyPiece::King(King::new(4, 7, PieceColor::BLACK)));
    board
}

#[test]
fn castling_through_an_attacked_square_is_refused_until_the_attack_is_gone() {
    let mut board = castling_corner();
    assert!(board.can_castle_king(&PieceColor::WHITE, 6));
    assert!(board.can_castle_king(&PieceColor::WHITE, 2));
    put(&mut board, AnyPiece::Rook(Rook::new(5, 5, PieceColor::BLACK)));
    assert!(board.is_consistent());
    assert!(!board.can_castle_king(&PieceColor::WHITE, 6));
    assert!(board.can_castle_king(&PieceColor::WHITE, 2));
    assert!(board.remove_piece_color(5, 5, &PieceColor::BLACK));
    assert!(board.can_castle_king(&PieceColor::WHITE, 6));
}

#[test]
fn castling_into_or_out_of_check_is_refused() {
    let mut board = castling_corner();
    put(&mut board, AnyPiece::Rook(Rook::new(6, 5, PieceColor::BLACK)));
    assert!(!board.can_castle_king(&PieceColor::WHITE, 6));
    assert!(board.can_castle_king(&PieceColor::WHITE, 2));
    assert!(board.remove_piece_color(6, 5, &PieceColor::BLACK));
    put(&mut board, AnyPiece::Rook(Rook::new(4, 5, PieceColor::BLACK)));
    assert!(!board.can_castle_king(&PieceColor::WHITE, 6));
    assert!(!board.can_castle_king(&PieceColor::WHITE, 2));
}

#[test]
fn castling_to_another_file_is_refused() {
    let mut board = castling_corner();
    assert!(!board.can_castle_king(&PieceColor::WHITE, 5));
    assert!(!board.can_castle_king(&PieceColor::WHITE, 0));
    assert!(!board.can_castle_king(&PieceColor::BLACK, 6));
}

#[test]
fn can_castle_leaves_the_position_as_it_was() {
    let mut board = castling_corner();
    put(&mut board, AnyPiece::Rook(Rook::new(5, 5, PieceColor::BLACK)));
    let grid = board.position_board.clone();
    let white = board.live_white_pieces.clone();
    let black = board.live_black_pieces.clone();
    board.can_castle_king(&PieceColor::WHITE, 6);
    board.can_castle_king(&PieceColor::WHITE, 2);
    assert_eq!(board.position_board, grid);
    assert_eq!(board.live_white_pieces, white);
    assert_eq!(board.live_black_pieces, black);
    assert_eq!(board.white_king_position, (4, 0));
}

#[test]
fn a_pawn_on_its_last_rank_is_promoted() {
    let mut board = empty_board(PieceColor::BLACK);
    put(&mut board, AnyPiece::King(King::new(4, 0, PieceColor::WHITE)));
    put(&mut board, AnyPiece::King(King::new(4, 6, PieceColor::BLACK)));
    put(&mut board, home_pawn(0, 6, PieceColor::WHITE));
    put(&mut board, home_pawn(7, 1, PieceColor::BLACK));
    assert!(board.is_consistent());
    play_all(&mut board, &["a8=Q", "h1=N"]);
    let queen = board.index_of_piece(0, 7, &PieceColor::WHITE).unwrap();
    assert_eq!(
        board.live_white_pieces[queen],
        AnyPiece::Queen(Queen::new(0, 7, PieceColor::WHITE))
    );
    let knight = board.index_of_piece(7, 0, &PieceColor::BLACK).unwrap();
    assert_eq!(board.live_black_pieces[knight].get_letter(), 'N');
    assert_eq!(board.live_white_pieces.len(), 2);
    assert_eq!(board.position_board[0][7], QuickPiece::PIECE(PieceColor::WHITE));
    assert_eq!(board.position_board[0][6], QuickPiece::EMPTY);
    assert_eq!(
        board.played_moves[0].promotion_piece,
        Some(String::from("Q"))
    );
}

#[test]
fn a_pawn_on_its_last_rank_needs_a_piece_to_become() {
    let mut board = empty_board(PieceColor::BLACK);
    put(&mut board, AnyPiece::King(King::new(4, 0, PieceColor::WHITE)));
    put(&mut board, AnyPiece::King(King::new(4, 7, PieceColor::BLACK)));
    put(&mut board, home_pawn(0, 6, PieceColor::WHITE));
    let plain = ParsedMove::new(
        String::from("P"),
        (None, None),
        (String::from("a"), String::from("8")),
        MoveTypes::Move,
        CheckOrCheckMate::Neither,
    );
    assert_eq!(board.play_move(plain).unwrap_err().kind, MoveErrorKind::InvalidPromotion);
    let king = ParsedMove::new(
        String::from("P"),
        (None, None),
        (String::from("a"), String::from("8")),
        MoveTypes::Promote(String::from("K")),
        CheckOrCheckMate::Neither,
    );
    assert_eq!(board.play_move(king).unwrap_err().kind, MoveErrorKind::InvalidPromotion);
    assert_eq!(board.position_board[0][6], QuickPiece::PIECE(PieceColor::WHITE));
    assert_eq!(board.last_move_color, PieceColor::BLACK);
}

#[test]
fn fools_mate_leaves_white_mated() {
    let mut board = Board::new();
    play_all(&mut board, &["f3", "e5", "g4", "Qh4#"]);
    assert_eq!(board.last_move_color, PieceColor::BLACK);
    assert!(is_board_in_check(&PieceColor::BLACK, &board));
    assert!(is_board_check_mate(&PieceColor::BLACK, &mut board));
    assert!(!can_any_piece_move(&PieceColor::WHITE, &mut board));
    assert!(!is_board_stale_mate(&mut board));
    for index in 0..board.live_white_pieces.len() {
        for x in 0..8 {
            for y in 0..8 {
                assert!(!is_legal_step(&PieceColor::WHITE, index, x, y, &mut board));
            }
        }
    }
    assert!(!board.can_castle_king(&PieceColor::WHITE, 6));
    assert!(!board.can_castle_king(&PieceColor::WHITE, 2));
    assert!(!is_board_check_mate(&PieceColor::WHITE, &mut board));
}

#[test]
fn the_search_finds_a_move_just_when_a_piece_has_a_legal_step() {
    let mut board = Board::new();
    play_all(&mut board, &["e4", "d5", "Bb5+"]);
    let mut found = false;
    for index in 0..board.live_black_pieces.len() {
        for x in 0..8 {
            for y in 0..8 {
                if is_legal_step(&PieceColor::BLACK, index, x, y, &mut board) {
                    found = true;
                }
            }
        }
    }
    assert!(found);
    assert!(can_any_piece_move(&PieceColor::BLACK, &mut board));
    assert!(is_board_in_check(&PieceColor::WHITE, &board));
    assert!(!is_board_check_mate(&PieceColor::WHITE, &mut board));
}

#[test]
fn a_move_that_leaves_the_king_attacked_is_refused() {
    let mut board = Board::new();
    play_all(&mut board, &["e4", "d5", "Bb5+"]);
    assert_eq!(refused(&mut board, "Nf6"), MoveErrorKind::SelfCheck);
    play_all(&mut board, &["c6"]);
    assert!(!is_board_in_check(&PieceColor::WHITE, &board));
}

#[test]
fn after_every_move_that_is_played_the_mover_is_not_in_check() {
    let mut board = Board::new();
    let moves = [
        "e4", "e5", "Nf3", "Nc6", "Bb5", "a6", "Bxc6", "dxc6", "O-O", "Bg4", "h3", "Bxf3",
        "Qxf3", "Qd7", "d3", "O-O-O",
    ];
    for text in moves.iter() {
        let mover = PieceColor::opposite_color(&board.last_move_color);
        play_all(&mut board, &[text]);
        assert_eq!(board.last_move_color, mover);
        assert!(!is_board_in_check(&PieceColor::opposite_color(&mover), &board));
    }
}

#[test]
fn a_description_that_fits_no_piece_is_refused() {
    let mut board = Board::new();
    assert_eq!(refused(&mut board, "Nad4"), MoveErrorKind::NoMatchingPiece);
    assert_eq!(refused(&mut board, "Qd4"), MoveErrorKind::IllegalGeometry);
    assert_eq!(refused(&mut board, "e5"), MoveErrorKind::IllegalGeometry);
    assert_eq!(refused(&mut board, "hello"), MoveErrorKind::Unreadable);
    assert_eq!(refused(&mut board, ""), MoveErrorKind::Unreadable);
    assert_eq!(refused(&mut board, "1-0"), MoveErrorKind::Malformed);
    assert_eq!(refused(&mut board, "Nxz9"), MoveErrorKind::Malformed);
}

#[test]
fn a_description_that_fits_two_pieces_is_refused() {
    let mut board = Board::new();
    play_all(&mut board, &["Nf3", "a6", "d4", "a5"]);
    assert_eq!(refused(&mut board, "Nd2"), MoveErrorKind::Ambiguous);
    play_all(&mut board, &["Nbd2"]);
    assert!(board.index_of_piece(3, 1, &PieceColor::WHITE).is_some());
    assert!(board.index_of_piece(5, 2, &PieceColor::WHITE).is_some());
    assert!(board.index_of_piece(1, 0, &PieceColor::WHITE).is_none());
}

#[test]
fn the_result_of_a_game_is_no_move() {
    let mut board = Board::new();
    let result = ParsedMove::new(
        String::new(),
        (None, None),
        (String::new(), String::new()),
        MoveTypes::FinalResult(GameResult::Draw),
        CheckOrCheckMate::Neither,
    );
    assert_eq!(board.play_move(result).unwrap_err().kind, MoveErrorKind::Malformed);
}

#[test]
fn a_refusal_comes_with_its_sentence() {
    let mut board = Board::new();
    let error = player_move(&mut board, "O-O").unwrap_err();
    assert_eq!(error.kind, MoveErrorKind::InvalidCastle);
    assert_eq!(error.description(), "The king may not castle to that side.");
    let error = player_move(&mut board, "exd3").unwrap_err();
    assert_eq!(
        error.description(),
        "Pawn tried to take to empty location without valid en passant."
    );
}

#[test]
fn a_draw_by_repetition_needs_the_third_occurrence() {
    let mut board = Board::new();
    assert!(!is_board_draw_by_repetition(&board));
    let first = board.get_current_hash();
    assert_eq!(board.board_state_hashes.get(&first), Some(&1));
    play_all(&mut board, &["Nf3", "Nf6", "Ng1", "Ng8"]);
    assert_eq!(board.get_current_hash(), first);
    assert_eq!(board.board_state_hashes.get(&first), Some(&2));
    assert!(!is_board_draw_by_repetition(&board));
    play_all(&mut board, &["Nf3", "Nf6", "Ng1"]);
    assert!(!is_board_draw_by_repetition(&board));
    play_all(&mut board, &["Ng8"]);
    assert_eq!(board.board_state_hashes.get(&first), Some(&3));
    assert!(is_board_draw_by_repetition(&board));
}

#[test]
fn a_king_with_no_move_and_no_check_is_stalemated() {
    let mut board = empty_board(PieceColor::WHITE);
    put(&mut board, AnyPiece::King(King::new(0, 7, PieceColor::BLACK)));
    put(&mut board, AnyPiece::King(King::new(2, 6, PieceColor::WHITE)));
    put(&mut board, AnyPiece::Queen(Queen::new(1, 5, PieceColor::WHITE)));
    assert!(board.is_consistent());
    assert!(!is_board_in_check(&PieceColor::WHITE, &board));
    assert!(!can_any_piece_move(&PieceColor::BLACK, &mut board));
    assert!(can_any_piece_move(&PieceColor::WHITE, &mut board));
    assert!(is_board_stale_mate(&mut board));
    assert!(!is_board_check_mate(&PieceColor::WHITE, &mut board));
    // With the queen one rank higher the king is attacked: mate, not stalemate.
    assert!(board.remove_piece_color(1, 5, &PieceColor::WHITE));
    put(&mut board, AnyPiece::Queen(Queen::new(1, 6, PieceColor::WHITE)));
    assert!(is_board_in_check(&PieceColor::WHITE, &board));
    assert!(is_board_check_mate(&PieceColor::WHITE, &mut board));
    assert!(!is_board_stale_mate(&mut board));
}

#[test]
fn the_starting_position_is_neither_mate_nor_stalemate_nor_drawn() {
    let mut board = Board::new();
    assert!(board.is_consistent());
    assert!(!is_board_in_check(&PieceColor::WHITE, &board));
    assert!(!is_board_in_check(&PieceColor::BLACK, &board));
    assert!(!is_board_check_mate(&PieceColor::BLACK, &mut board));
    assert!(!is_board_stale_mate(&mut board));
    assert!(!is_board_draw_by_repetition(&board));
    assert!(can_any_piece_move(&PieceColor::WHITE, &mut board));
    assert_eq!(board.live_white_pieces.len(), 16);
    assert_eq!(board.live_black_pieces.len(), 16);
    assert_eq!(board.white_king_position, Board::default_white_king_pos());
    assert_eq!(board.black_king_position, Board::default_black_king_pos());
    assert_eq!(board.last_move_color, PieceColor::BLACK);
}

#[test]
fn the_piece_of_a_described_move_is_found_when_it_is_the_only_one() {
    let mut board = Board::new();
    let pawn = chess::parser::parse_move("e4").unwrap();
    match board.find_start_piece_from_move(&pawn) {
        Some(piece) => {
            assert_eq!(piece.get_letter(), 'P');
            assert_eq!(piece.get_pos(), (4, 1));
        }
        None => panic!("no pawn can go to e4"),
    }
    let knight = chess::parser::parse_move("Nf3").unwrap();
    match board.find_start_piece_from_move(&knight) {
        Some(piece) => assert_eq!(piece.get_pos(), (6, 0)),
        None => panic!("no knight can go to f3"),
    }
    let queen = chess::parser::parse_move("Qd4").unwrap();
    assert!(board.find_start_piece_from_move(&queen).is_none());
    let castle = chess::parser::parse_move("O-O").unwrap();
    assert!(board.find_start_piece_from_move(&castle).is_none());
    // It is white's turn: the black knight is not looked at.
    let black_knight = chess::parser::parse_move("Nf6").unwrap();
    assert!(board.find_start_piece_from_move(&black_knight).is_none());
    play_all(&mut board, &["Nf3", "a6", "d4", "a5"]);
    let either = chess::parser::parse_move("Nd2").unwrap();
    assert!(board.find_start_piece_from_move(&either).is_none());
    let one = chess::parser::parse_move("Nfd2").unwrap();
    assert_eq!(board.find_start_piece_from_move(&one).unwrap().get_pos(), (5, 2));
    assert_eq!(board.resolve_piece(&one, 3, 1), Ok(3));
    assert_eq!(board.resolve_piece(&either, 3, 1), Err(MoveErrorKind::Ambiguous));
    assert!(Board::is_correct_piece_type(&board.live_white_pieces[3], "N"));
    assert!(!Board::is_correct_piece_type(&board.live_white_pieces[3], "B"));
    assert!(Board::is_correct_moving_piece(&one, &board.live_white_pieces[3]));
    assert!(!Board::is_correct_moving_piece(&one, &board.live_white_pieces[2]));
}

#[test]
fn a_pawn_is_exchanged_where_it_stands() {
    let mut board = empty_board(PieceColor::BLACK);
    put(&mut board, AnyPiece::King(King::new(4, 0, PieceColor::WHITE)));
    put(&mut board, AnyPiece::King(King::new(4, 6, PieceColor::BLACK)));
    put(&mut board, home_pawn(0, 7, PieceColor::WHITE));
    put(&mut board, home_pawn(2, 3, PieceColor::WHITE));
    board.promote_pawn_at(0, 7, &PieceColor::WHITE, "R");
    assert_eq!(board.live_white_pieces.len(), 3);
    assert_eq!(
        board.live_white_pieces[1],
        AnyPiece::Rook(Rook::new(0, 7, PieceColor::WHITE))
    );
    assert!(board.is_consistent());
    // No piece of that side stands there: nothing changes.
    board.promote_pawn_at(1, 7, &PieceColor::WHITE, "Q");
    board.promote_pawn_at(0, 7, &PieceColor::BLACK, "Q");
    assert_eq!(board.live_white_pieces.len(), 3);
    assert_eq!(board.live_black_pieces.len(), 1);
    assert_eq!(board.live_white_pieces[1].get_letter(), 'R');
    assert!(board.is_consistent());
}

#[test]
fn a_description_is_resolved_to_the_move_that_is_played() {
    let mut board = Board::new();
    let pawn = chess::parser::parse_move("e4").unwrap();
    let mv = board.resolve_move(&pawn).unwrap();
    assert_eq!(mv, Move { piece: 'P', from: (4, 1), to: (4, 3), tag: MoveTag::Ordinary });
    assert!(board.is_move_allowed(&mv));
    board.apply_move(&mv);
    assert_eq!(board.last_move_color, PieceColor::WHITE);
    assert_eq!(board.position_board[4][3], QuickPiece::PIECE(PieceColor::WHITE));
    assert!(board.is_consistent());
    play_all(&mut board, &["d5"]);
    let takes = chess::parser::parse_move("exd5").unwrap();
    assert_eq!(
        board.resolve_move(&takes).unwrap(),
        Move { piece: 'P', from: (4, 3), to: (3, 4), tag: MoveTag::Capture }
    );
    let castle = chess::parser::parse_move("O-O").unwrap();
    let mv = board.resolve_move(&castle).unwrap();
    assert_eq!(mv, Move { piece: 'K', from: (4, 0), to: (6, 0), tag: MoveTag::Castle(6) });
    assert!(!board.is_move_allowed(&mv));
    play_all(&mut board, &["e5", "f5"]);
    let passing = chess::parser::parse_move("exf6").unwrap();
    let mv = board.resolve_move(&passing).unwrap();
    assert_eq!(
        mv,
        Move { piece: 'P', from: (4, 4), to: (5, 5), tag: MoveTag::EnPassantCapture }
    );
    assert!(board.is_move_allowed(&mv));
    board.apply_move(&mv);
    assert_eq!(board.position_board[5][4], QuickPiece::EMPTY);
    assert_eq!(board.live_black_pieces.len(), 15);
    assert!(board.is_consistent());
    let unknown = chess::parser::parse_move("Qd5").unwrap();
    assert_eq!(
        board.resolve_move(&unknown).unwrap_err().kind,
        MoveErrorKind::IllegalGeometry
    );
}

#[test]
fn a_promotion_is_resolved_with_the_letter_of_the_new_piece() {
    let mut board = empty_board(PieceColor::BLACK);
    put(&mut board, AnyPiece::King(King::new(4, 0, PieceColor::WHITE)));
    put(&mut board, AnyPiece::King(King::new(4, 6, PieceColor::BLACK)));
    put(&mut board, home_pawn(0, 6, PieceColor::WHITE));
    put(&mut board, AnyPiece::Rook(Rook::new(1, 7, PieceColor::BLACK)));
    let takes = chess::parser::parse_move("axb8=N").unwrap();
    let mv = board.resolve_move(&takes).unwrap();
    assert_eq!(mv, Move { piece: 'P', from: (0, 6), to: (1, 7), tag: MoveTag::Promotion('N') });
    assert!(board.is_move_allowed(&mv));
    board.apply_move(&mv);
    assert_eq!(board.live_black_pieces.len(), 1);
    assert_eq!(board.live_white_pieces[1].get_letter(), 'N');
    assert_eq!(board.live_white_pieces[1].get_pos(), (1, 7));
    assert_eq!(board.played_moves[0].promotion_piece, Some(String::from("N")));
    assert_eq!(board.played_moves[0].piece_string, "P");
    assert!(board.is_consistent());
}
