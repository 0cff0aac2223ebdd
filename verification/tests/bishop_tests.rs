#![allow(unused_imports, unused_variables, unused_mut, non_snake_case)]
use chess::piece_types::{PieceColor, QuickPiece};
use chess::pieces::PieceMove;
use chess::pieces::bishop::Bishop;

/// Puts a piece into the list of its side and shows it on the grid.
#[allow(dead_code)]
fn insert_piece_into_board(
    piece: chess::pieces::AnyPiece,
    piece_color: &chess::piece_types::PieceColor,
    x_coord: usize,
    y_coord: usize,
    board: &mut chess::board::Board,
) {
    let owned_piece_color = match piece_color {
        chess::piece_types::PieceColor::WHITE => chess::piece_types::PieceColor::WHITE,
        chess::piece_types::PieceColor::BLACK => chess::piece_types::PieceColor::BLACK,
    };

    let quick_piece = match &piece {
        chess::pieces::AnyPiece::King(_) => chess::piece_types::QuickPiece::KING(owned_piece_color),
        _ => chess::piece_types::QuickPiece::PIECE(owned_piece_color),
    };

    match &quick_piece {
        chess::piece_types::QuickPiece::KING(color) => match color {
            chess::piece_types::PieceColor::WHITE => board.white_king_position = (x_coord, y_coord),
            chess::piece_types::PieceColor::BLACK => board.black_king_position = (x_coord, y_coord),
        },
        _ => (),
    }

    match piece_color {
        chess::piece_types::PieceColor::WHITE => board.live_white_pieces.push(piece),
        chess::piece_types::PieceColor::BLACK => board.live_black_pieces.push(piece),
    }

    board
        .position_board
        .get_mut(x_coord)
        .unwrap()
        .remove(y_coord);
    board
        .position_board
        .get_mut(x_coord)
        .unwrap()
        .insert(y_coord, quick_piece);
}

/// Shows a piece on a square of the grid in place of what was there.
#[allow(dead_code)]
fn insert_quick_piece_into_board(
    piece: chess::piece_types::QuickPiece,
    x_coord: usize,
    y_coord: usize,
    board: &mut Vec<Vec<chess::piece_types::QuickPiece>>,
) {
    board.get_mut(x_coord).unwrap().remove(y_coord);
    board.get_mut(x_coord).unwrap().insert(y_coord, piece);
}

/// An empty grid but for one square.
#[allow(dead_code)]
fn create_board_with_piece(
    x_coord: usize,
    y_coord: usize,
    piece_type: chess::piece_types::QuickPiece,
) -> Vec<Vec<chess::piece_types::QuickPiece>> {
    let mut board = Vec::new();
    for _ in 0..x_coord {
        board.push(vec![
            chess::piece_types::QuickPiece::EMPTY,
            chess::piece_types::QuickPiece::EMPTY,
            chess::piece_types::QuickPiece::EMPTY,
            chess::piece_types::QuickPiece::EMPTY,
            chess::piece_types::QuickPiece::EMPTY,
            chess::piece_types::QuickPiece::EMPTY,
            chess::piece_types::QuickPiece::EMPTY,
            chess::piece_types::QuickPiece::EMPTY,
        ]);
    }

    let mut line_with_piece = Vec::with_capacity(8);
    for _ in 0..y_coord {
        line_with_piece.push(chess::piece_types::QuickPiece::EMPTY);
    }

    line_with_piece.push(piece_type);
    for _ in (y_coord + 1)..8 {
        line_with_piece.push(chess::piece_types::QuickPiece::EMPTY);
    }
    board.push(line_with_piece);

    for _ in (x_coord + 1)..8 {
        board.push(vec![
            chess::piece_types::QuickPiece::EMPTY,
            chess::piece_types::QuickPiece::EMPTY,
            chess::piece_types::QuickPiece::EMPTY,
            chess::piece_types::QuickPiece::EMPTY,
            chess::piece_types::QuickPiece::EMPTY,
            chess::piece_types::QuickPiece::EMPTY,
            chess::piece_types::QuickPiece::EMPTY,
            chess::piece_types::QuickPiece::EMPTY,
        ]);
    }

    board
}

#[test]
fn bishop_tests_test_can_move_no_where() {
    let board = create_board_with_piece(4, 4, QuickPiece::PIECE(PieceColor::WHITE));
    let bishop = Bishop::new(4, 4, PieceColor::WHITE);

    assert_eq!(
        bishop.can_move(4, 4, &board),
        false,
        "Expected to not be able to move to {}, {} from {}, {}",
        4,
        4,
        4,
        4
    );
}

#[test]
fn bishop_tests_test_can_move_lower_right() {
    // First create the piece and the board
    //assert_eq!(false, true);
    let board = create_board_with_piece(4, 4, QuickPiece::PIECE(PieceColor::WHITE));
    let bishop = Bishop::new(4, 4, PieceColor::WHITE);

    assert_eq!(
        bishop.can_move(3, 5, &board),
        true,
        "Expected to be able to move to {}, {} from {},{}",
        3,
        5,
        4,
        4
    );
    assert_eq!(
        bishop.can_move(2, 6, &board),
        true,
        "Expected to be able to move to {}, {} from {},{}",
        2,
        6,
        4,
        4
    );
    assert_eq!(
        bishop.can_move(1, 7, &board),
        true,
        "Expected to be able to move to {}, {} from {},{}",
        1,
        7,
        4,
        4
    );
    assert_eq!(
        bishop.can_move(0, 8, &board),
        false,
        "Expected to not be able to move to {}, {} from {},{}",
        0,
        8,
        4,
        4
    );
}
#[test]
fn bishop_tests_test_can_move_upper_right() {
    // First create the piece and the board
    //assert_eq!(false, true);
    let board = create_board_with_piece(4, 4, QuickPiece::PIECE(PieceColor::WHITE));
    let bishop = Bishop::new(4, 4, PieceColor::WHITE);

    assert_eq!(
        bishop.can_move(5, 5, &board),
        true,
        "Expected to be able to move to {}, {} from {},{}",
        5,
        5,
        4,
        4
    );
    assert_eq!(
        bishop.can_move(6, 6, &board),
        true,
        "Expected to be able to move to {}, {} from {},{}",
        6,
        6,
        4,
        4
    );
    assert_eq!(
        bishop.can_move(7, 7, &board),
        true,
        "Expected to be able to move to {}, {} from {},{}",
        7,
        7,
        4,
        4
    );
    assert_eq!(
        bishop.can_move(8, 8, &board),
        false,
        "Expected to not be able to move to {}, {} from {},{}",
        8,
        8,
        4,
        4
    );
}

#[test]
fn bishop_tests_test_can_move_upper_left() {
    // First create the piece and the board
    //assert_eq!(false, true);
    let board = create_board_with_piece(4, 4, QuickPiece::PIECE(PieceColor::WHITE));
    let bishop = Bishop::new(4, 4, PieceColor::WHITE);

    assert_eq!(
        bishop.can_move(5, 3, &board),
        true,
        "Expected to be able to move to {}, {} from {},{}",
        5,
        3,
        4,
        4
    );
    assert_eq!(
        bishop.can_move(6, 2, &board),
        true,
        "Expected to be able to move to {}, {} from {},{}",
        6,
        2,
        4,
        4
    );
    assert_eq!(
        bishop.can_move(7, 1, &board),
        true,
        "Expected to be able to move to {}, {} from {},{}",
        7,
        1,
        4,
        4
    );
    assert_eq!(
        bishop.can_move(8, 0, &board),
        false,
        "Expected to not be able to move to {}, {} from {},{}",
        8,
        0,
        4,
        4
    );
}

#[test]
fn bishop_tests_test_can_move_lower_left() {
    // First create the piece and the board
    //assert_eq!(false, true);
    let board = create_board_with_piece(4, 4, QuickPiece::PIECE(PieceColor::WHITE));
    let bishop = Bishop::new(4, 4, PieceColor::WHITE);

    assert_eq!(
        bishop.can_move(3, 3, &board),
        true,
        "Expected to be able to move to {}, {} from {},{}",
        3,
        3,
        4,
        4
    );
    assert_eq!(
        bishop.can_move(2, 2, &board),
        true,
        "Expected to be able to move to {}, {} from {},{}",
        2,
        2,
        4,
        4
    );
    assert_eq!(
        bishop.can_move(1, 1, &board),
        true,
        "Expected to be able to move to {}, {} from {},{}",
        1,
        1,
        4,
        4
    );
    assert_eq!(
        bishop.can_move(0, 0, &board),
        true,
        "Expected to be able to move to {}, {} from {},{}",
        0,
        0,
        4,
        4
    );
}

#[test]
fn bishop_tests_test_can_move_through_piece() {
    let mut board = create_board_with_piece(4, 4, QuickPiece::PIECE(PieceColor::WHITE));
    let bishop = Bishop::new(4, 4, PieceColor::WHITE);

    insert_quick_piece_into_board(QuickPiece::PIECE(PieceColor::WHITE), 4, 4, &mut board);
    insert_quick_piece_into_board(QuickPiece::PIECE(PieceColor::WHITE), 5, 5, &mut board);
    insert_quick_piece_into_board(QuickPiece::PIECE(PieceColor::WHITE), 3, 3, &mut board);
    insert_quick_piece_into_board(QuickPiece::PIECE(PieceColor::WHITE), 5, 3, &mut board);
    insert_quick_piece_into_board(QuickPiece::PIECE(PieceColor::WHITE), 3, 5, &mut board);

    assert_eq!(
        bishop.can_move(6, 6, &board),
        false,
        "Expected to not be able to move through some color to {}, {} from {},{}",
        6,
        6,
        4,
        4
    );
    assert_eq!(
        bishop.can_move(2, 2, &board),
        false,
        "Expected to not be able to move through some color to {}, {} from {},{}",
        2,
        2,
        4,
        4
    );
    assert_eq!(
        bishop.can_move(6, 2, &board),
        false,
        "Expected to not be able to move through some color to {}, {} from {},{}",
        6,
        2,
        4,
        4
    );
    assert_eq!(
        bishop.can_move(2, 6, &board),
        false,
        "Expected to not be able to move through some color to {}, {} from {},{}",
        2,
        6,
        4,
        4
    );

    insert_quick_piece_into_board(QuickPiece::PIECE(PieceColor::BLACK), 4, 4, &mut board);
    insert_quick_piece_into_board(QuickPiece::PIECE(PieceColor::BLACK), 5, 5, &mut board);
    insert_quick_piece_into_board(QuickPiece::PIECE(PieceColor::BLACK), 3, 3, &mut board);
    insert_quick_piece_into_board(QuickPiece::PIECE(PieceColor::BLACK), 5, 3, &mut board);
    insert_quick_piece_into_board(QuickPiece::PIECE(PieceColor::BLACK), 3, 5, &mut board);

    assert_eq!(
        bishop.can_move(6, 6, &board),
        false,
        "Expected to not be able to move through opposing color to {}, {} from {},{}",
        6,
        6,
        4,
        4
    );
    assert_eq!(
        bishop.can_move(2, 2, &board),
        false,
        "Expected to not be able to move through opposing color to {}, {} from {},{}",
        2,
        2,
        4,
        4
    );
    assert_eq!(
        bishop.can_move(6, 2, &board),
        false,
        "Expected to not be able to move through opposing color to {}, {} from {},{}",
        6,
        2,
        4,
        4
    );
    assert_eq!(
        bishop.can_move(2, 6, &board),
        false,
        "Expected to not be able to move through opposing color to {}, {} from {},{}",
        2,
        6,
        4,
        4
    );
}

#[test]
fn bishop_tests_test_can_move_capture_same_color() {
    let mut board = create_board_with_piece(4, 4, QuickPiece::PIECE(PieceColor::WHITE));
    let bishop = Bishop::new(4, 4, PieceColor::WHITE);
    insert_quick_piece_into_board(QuickPiece::PIECE(PieceColor::WHITE), 4, 4, &mut board);
    insert_quick_piece_into_board(QuickPiece::PIECE(PieceColor::WHITE), 5, 5, &mut board);
    insert_quick_piece_into_board(QuickPiece::PIECE(PieceColor::WHITE), 3, 3, &mut board);
    insert_quick_piece_into_board(QuickPiece::PIECE(PieceColor::WHITE), 5, 3, &mut board);
    insert_quick_piece_into_board(QuickPiece::PIECE(PieceColor::WHITE), 3, 5, &mut board);

    assert_eq!(
        bishop.can_move(5, 5, &board),
        false,
        "Expected to not capture same color piece at {},{} from {},{}",
        5,
        5,
        4,
        4
    );
    assert_eq!(
        bishop.can_move(3, 3, &board),
        false,
        "Expected to not capture same color piece at {},{} from {},{}",
        3,
        3,
        4,
        4
    );
    assert_eq!(
        bishop.can_move(5, 3, &board),
        false,
        "Expected to not capture same color piece at {},{} from {},{}",
        5,
        3,
        4,
        4
    );
    assert_eq!(
        bishop.can_move(3, 5, &board),
        false,
        "Expected to not capture same color piece at {},{} from {},{}",
        3,
        5,
        4,
        4
    );
}

#[test]
fn bishop_tests_test_can_move_capture_opposing_color() {
    let mut board = create_board_with_piece(4, 4, QuickPiece::PIECE(PieceColor::BLACK));
    let bishop = Bishop::new(4, 4, PieceColor::BLACK);
    insert_quick_piece_into_board(QuickPiece::PIECE(PieceColor::WHITE), 5, 5, &mut board);
    insert_quick_piece_into_board(QuickPiece::PIECE(PieceColor::WHITE), 3, 3, &mut board);
    insert_quick_piece_into_board(QuickPiece::PIECE(PieceColor::WHITE), 5, 3, &mut board);
    insert_quick_piece_into_board(QuickPiece::PIECE(PieceColor::WHITE), 3, 5, &mut board);
    assert_eq!(
        bishop.can_move(5, 5, &board),
        true,
        "Expected to capture opposing color piece at {},{} from {},{}",
        5,
        5,
        4,
        4
    );
    assert_eq!(
        bishop.can_move(3, 3, &board),
        true,
        "Expected to capture opposing color piece at {},{} from {},{}",
        3,
        3,
        4,
        4
    );
    assert_eq!(
        bishop.can_move(5, 3, &board),
        true,
        "Expected to capture opposing color piece at {},{} from {},{}",
        5,
        3,
        4,
        4
    );
    assert_eq!(
        bishop.can_move(3, 5, &board),
        true,
        "Expected to capture opposing color piece at {},{} from {},{}",
        3,
        5,
        4,
        4
    );
}

#[test]
fn bishop_tests_test_moves_on_board_4_4() {
    let mut board = create_board_with_piece(4, 4, QuickPiece::PIECE(PieceColor::BLACK));
    let bishop = Bishop::new(4, 4, PieceColor::BLACK);

    insert_quick_piece_into_board(QuickPiece::PIECE(PieceColor::BLACK), 4, 4, &mut board);

    let mut expected_possible_moves = vec![
        (3, 3),
        (2, 2),
        (1, 1),
        (0, 0),
        (5, 5),
        (6, 6),
        (7, 7),
        (3, 5),
        (2, 6),
        (1, 7),
        (5, 3),
        (6, 2),
        (7, 1),
    ];
    expected_possible_moves.sort();
    let mut actual_possible_moves = bishop.moves_on_board();
    actual_possible_moves.sort();

    assert_eq!(actual_possible_moves, expected_possible_moves);
}

#[test]
fn bishop_tests_test_moves_on_board_0_0() {
    let mut board = create_board_with_piece(0, 0, QuickPiece::PIECE(PieceColor::BLACK));
    let bishop = Bishop::new(0, 0, PieceColor::BLACK);

    insert_quick_piece_into_board(QuickPiece::PIECE(PieceColor::BLACK), 4, 4, &mut board);

    let mut expected_possible_moves: Vec<(usize, usize)> = (1..8).zip(1..8).collect();
    expected_possible_moves.sort();
    let mut actual_possible_moves = bishop.moves_on_board();
    actual_possible_moves.sort();

    assert_eq!(actual_possible_moves, expected_possible_moves);
}

#[test]
fn test_moves_on_board_0_7() {
    let mut board = create_board_with_piece(0, 7, QuickPiece::PIECE(PieceColor::BLACK));
    let bishop = Bishop::new(0, 7, PieceColor::BLACK);

    insert_quick_piece_into_board(QuickPiece::PIECE(PieceColor::BLACK), 4, 4, &mut board);

    let mut expected_possible_moves: Vec<(usize, usize)> = (1..8).zip((0..7).rev()).collect();
    expected_possible_moves.sort();
    let mut actual_possible_moves = bishop.moves_on_board();
    actual_possible_moves.sort();

    assert_eq!(actual_possible_moves, expected_possible_moves);
}

#[test]
fn test_moves_on_board_7_0() {
    let mut board = create_board_with_piece(7, 0, QuickPiece::PIECE(PieceColor::BLACK));
    let bishop = Bishop::new(7, 0, PieceColor::BLACK);

    insert_quick_piece_into_board(QuickPiece::PIECE(PieceColor::BLACK), 4, 4, &mut board);

    let mut expected_possible_moves: Vec<(usize, usize)> = (0..7).rev().zip(1..8).collect();
    expected_possible_moves.sort();
    let mut actual_possible_moves = bishop.moves_on_board();
    actual_possible_moves.sort();

    assert_eq!(actual_possible_moves, expected_possible_moves);
}

#[test]
fn bishop_tests_test_moves_on_board_7_7() {
    let mut board = create_board_with_piece(7, 7, QuickPiece::PIECE(PieceColor::BLACK));
    let bishop = Bishop::new(7, 7, PieceColor::BLACK);

    insert_quick_piece_into_board(QuickPiece::PIECE(PieceColor::BLACK), 4, 4, &mut board);

    let mut expected_possible_moves: Vec<(usize, usize)> = (0..7).rev().zip((0..7).rev()).collect();
    expected_possible_moves.sort();
    let mut actual_possible_moves = bishop.moves_on_board();
    actual_possible_moves.sort();

    assert_eq!(actual_possible_moves, expected_possible_moves);
}
