use chess::piece_types::{PieceColor, QuickPiece};
use chess::pieces::bishop::Bishop;
use chess::pieces::king::King;
use chess::pieces::knight::Knight;
use chess::pieces::movement::{
    check_if_pieces_in_path_diag, check_if_pieces_in_path_horizontal_vertical, is_move_diagonal,
    is_move_horizontal_vertical, push_offset, push_ray,
};
use chess::pieces::pawn::Pawn;
use chess::pieces::queen::Queen;
use chess::pieces::rook::Rook;
use chess::pieces::{
    can_land_on, check_if_piece_on_location, coord_on_board, delta, AnyPiece, PieceMove,
};

fn empty_grid() -> Vec<Vec<QuickPiece>> {
    let mut files = Vec::new();
    for _ in 0..8 {
        files.push(vec![QuickPiece::EMPTY; 8]);
    }
    files
}

#[test]
fn each_side_is_the_opposite_of_the_other() {
    assert_eq!(PieceColor::opposite_color(&PieceColor::WHITE), PieceColor::BLACK);
    assert_eq!(PieceColor::opposite_color(&PieceColor::BLACK), PieceColor::WHITE);
    assert_eq!(QuickPiece::EMPTY.color(), None);
    assert_eq!(QuickPiece::PIECE(PieceColor::WHITE).color(), Some(PieceColor::WHITE));
    assert_eq!(QuickPiece::KING(PieceColor::BLACK).color(), Some(PieceColor::BLACK));
}

#[test]
fn a_square_is_on_the_board_within_its_files_and_ranks() {
    let grid = empty_grid();
    assert!(coord_on_board(0, 0, &grid));
    assert!(coord_on_board(7, 7, &grid));
    assert!(!coord_on_board(8, 0, &grid));
    assert!(!coord_on_board(0, 8, &grid));
    assert!(!coord_on_board(0, 0, &Vec::new()));
    let narrow = vec![vec![QuickPiece::EMPTY; 3], vec![QuickPiece::EMPTY; 3]];
    assert!(coord_on_board(1, 2, &narrow));
    assert!(!coord_on_board(2, 2, &narrow));
    assert!(!coord_on_board(1, 3, &narrow));
    assert_eq!(delta(3, 7), 4);
    assert_eq!(delta(7, 3), 4);
    assert_eq!(delta(5, 5), 0);
}

#[test]
fn a_square_is_free_for_a_side_unless_its_own_piece_stands_there() {
    let mut grid = empty_grid();
    grid[2][2] = QuickPiece::PIECE(PieceColor::WHITE);
    grid[3][3] = QuickPiece::KING(PieceColor::BLACK);
    assert!(check_if_piece_on_location(2, 2, &grid));
    assert!(check_if_piece_on_location(3, 3, &grid));
    assert!(!check_if_piece_on_location(4, 4, &grid));
    assert!(!can_land_on(2, 2, PieceColor::WHITE, &grid));
    assert!(can_land_on(2, 2, PieceColor::BLACK, &grid));
    assert!(can_land_on(3, 3, PieceColor::WHITE, &grid));
    assert!(!can_land_on(3, 3, PieceColor::BLACK, &grid));
    assert!(can_land_on(4, 4, PieceColor::WHITE, &grid));
}

#[test]
fn the_shape_of_a_move_is_told_by_its_distances() {
    let grid = empty_grid();
    assert!(is_move_diagonal(2, 2, 5, 5, &grid));
    assert!(is_move_diagonal(5, 2, 2, 5, &grid));
    assert!(!is_move_diagonal(2, 2, 2, 2, &grid));
    assert!(!is_move_diagonal(2, 2, 5, 4, &grid));
    assert!(is_move_horizontal_vertical(2, 2, 2, 7, &grid));
    assert!(is_move_horizontal_vertical(2, 2, 0, 2, &grid));
    assert!(is_move_horizontal_vertical(2, 2, 2, 2, &grid));
    assert!(!is_move_horizontal_vertical(2, 2, 3, 3, &grid));
}

#[test]
fn a_path_is_blocked_by_what_stands_strictly_between_its_ends() {
    let mut grid = empty_grid();
    grid[3][3] = QuickPiece::PIECE(PieceColor::WHITE);
    grid[5][1] = QuickPiece::KING(PieceColor::BLACK);
    assert!(check_if_pieces_in_path_diag(1, 1, 5, 5, &grid));
    assert!(check_if_pieces_in_path_diag(5, 5, 1, 1, &grid));
    assert!(!check_if_pieces_in_path_diag(1, 1, 3, 3, &grid));
    assert!(!check_if_pieces_in_path_diag(3, 3, 6, 6, &grid));
    assert!(check_if_pieces_in_path_diag(2, 4, 4, 2, &grid));
    assert!(!check_if_pieces_in_path_diag(0, 6, 2, 4, &grid));
    assert!(!check_if_pieces_in_path_diag(4, 2, 5, 1, &grid));
    assert!(check_if_pieces_in_path_diag(2, 4, 6, 0, &grid));
    assert!(!check_if_pieces_in_path_diag(4, 4, 4, 4, &grid));
    assert!(check_if_pieces_in_path_horizontal_vertical(3, 0, 3, 7, &grid));
    assert!(check_if_pieces_in_path_horizontal_vertical(7, 3, 0, 3, &grid));
    assert!(!check_if_pieces_in_path_horizontal_vertical(3, 0, 3, 3, &grid));
    assert!(!check_if_pieces_in_path_horizontal_vertical(3, 3, 3, 7, &grid));
    assert!(!check_if_pieces_in_path_horizontal_vertical(0, 0, 7, 0, &grid));
    // Neither along a file nor along a rank: nothing is in the way.
    assert!(!check_if_pieces_in_path_horizontal_vertical(2, 2, 4, 4, &grid));
    assert!(check_if_pieces_in_path_horizontal_vertical(5, 0, 5, 2, &grid));
}

#[test]
fn a_ray_runs_to_the_edge_of_the_board() {
    let mut squares = vec![(9, 9)];
    push_ray(&mut squares, 2, 5, 1, 1);
    assert_eq!(squares, vec![(9, 9), (3, 6), (4, 7)]);
    let mut squares = Vec::new();
    push_ray(&mut squares, 2, 5, -1, -1);
    assert_eq!(squares, vec![(1, 4), (0, 3)]);
    let mut squares = Vec::new();
    push_ray(&mut squares, 2, 5, 0, -1);
    assert_eq!(squares, vec![(2, 4), (2, 3), (2, 2), (2, 1), (2, 0)]);
    let mut squares = Vec::new();
    push_ray(&mut squares, 7, 7, 1, 0);
    push_ray(&mut squares, 7, 7, 0, 1);
    push_ray(&mut squares, 8, 3, -1, 0);
    assert_eq!(squares, Vec::<(usize, usize)>::new());
    let mut squares = Vec::new();
    push_offset(&mut squares, 0, 0, -1, 2);
    push_offset(&mut squares, 0, 0, 1, 2);
    push_offset(&mut squares, 7, 7, 1, 0);
    push_offset(&mut squares, 7, 7, -2, -1);
    push_offset(&mut squares, 9, 1, -2, 0);
    assert_eq!(squares, vec![(1, 2), (5, 6)]);
}

#[test]
fn a_knight_jumps_in_the_shape_of_an_l() {
    let mut grid = empty_grid();
    let knight = Knight::new(4, 4, PieceColor::WHITE);
    let jumps = [(5, 6), (6, 5), (6, 3), (5, 2), (3, 2), (2, 3), (2, 5), (3, 6)];
    for x in 0..8 {
        for y in 0..8 {
            assert_eq!(knight.can_move(x, y, &grid), jumps.contains(&(x, y)), "{}, {}", x, y);
        }
    }
    assert_eq!(knight.moves_on_board(), jumps.to_vec());
    grid[5][6] = QuickPiece::PIECE(PieceColor::WHITE);
    grid[6][5] = QuickPiece::PIECE(PieceColor::BLACK);
    grid[4][5] = QuickPiece::PIECE(PieceColor::BLACK);
    assert!(!knight.can_move(5, 6, &grid));
    assert!(knight.can_move(6, 5, &grid));
    assert!(knight.can_move(3, 6, &grid));
    let corner = Knight::new(0, 0, PieceColor::BLACK);
    assert_eq!(corner.moves_on_board(), vec![(1, 2), (2, 1)]);
    assert_eq!(knight.get_pos(), (4, 4));
}

#[test]
fn the_squares_of_each_piece_come_in_their_order() {
    let bishop = Bishop::new(1, 1, PieceColor::WHITE);
    assert_eq!(
        bishop.moves_on_board(),
        vec![(2, 2), (3, 3), (4, 4), (5, 5), (6, 6), (7, 7), (2, 0), (0, 0), (0, 2)]
    );
    let rook = Rook::new(6, 1, PieceColor::WHITE);
    assert_eq!(
        rook.moves_on_board(),
        vec![
            (7, 1),
            (5, 1),
            (4, 1),
            (3, 1),
            (2, 1),
            (1, 1),
            (0, 1),
            (6, 2),
            (6, 3),
            (6, 4),
            (6, 5),
            (6, 6),
            (6, 7),
            (6, 0)
        ]
    );
    let queen = Queen::new(0, 7, PieceColor::BLACK);
    assert_eq!(queen.moves_on_board().len(), 21);
    assert_eq!(queen.moves_on_board()[0], (1, 6));
    assert_eq!(queen.moves_on_board()[7], (1, 7));
    let king = King::new(3, 3, PieceColor::BLACK);
    assert_eq!(
        king.moves_on_board(),
        vec![(2, 4), (3, 4), (4, 4), (2, 3), (4, 3), (2, 2), (3, 2), (4, 2)]
    );
    let pawn = Pawn::new(0, 1, PieceColor::WHITE);
    assert_eq!(pawn.moves_on_board(), vec![(0, 2), (1, 2), (0, 3)]);
    let pawn = Pawn::new(7, 6, PieceColor::BLACK);
    assert_eq!(pawn.moves_on_board(), vec![(7, 5), (6, 5), (7, 4)]);
    let pawn = Pawn::new(3, 7, PieceColor::WHITE);
    assert_eq!(pawn.moves_on_board(), Vec::<(usize, usize)>::new());
}

#[test]
fn whatever_a_piece_can_move_to_is_among_its_squares() {
    let mut grid = empty_grid();
    grid[2][2] = QuickPiece::PIECE(PieceColor::BLACK);
    grid[5][4] = QuickPiece::PIECE(PieceColor::WHITE);
    grid[3][6] = QuickPiece::KING(PieceColor::BLACK);
    grid[4][2] = QuickPiece::PIECE(PieceColor::BLACK);
    let mut pieces = Vec::new();
    for x in 0..8 {
        for y in 0..8 {
            for color in [PieceColor::WHITE, PieceColor::BLACK] {
                pieces.push(AnyPiece::King(King::new(x, y, color)));
                pieces.push(AnyPiece::Queen(Queen::new(x, y, color)));
                pieces.push(AnyPiece::Bishop(Bishop::new(x, y, color)));
                pieces.push(AnyPiece::Knight(Knight::new(x, y, color)));
                pieces.push(AnyPiece::Rook(Rook::new(x, y, color)));
            }
        }
        pieces.push(AnyPiece::Pawn(Pawn::new(x, 1, PieceColor::WHITE)));
        pieces.push(AnyPiece::Pawn(Pawn::new(x, 6, PieceColor::BLACK)));
        for y in 2..7 {
            let mut white = Pawn::new(x, 1, PieceColor::WHITE);
            white.set_pos(x, y);
            pieces.push(AnyPiece::Pawn(white));
            let mut black = Pawn::new(x, 6, PieceColor::BLACK);
            black.set_pos(x, 7 - y);
            pieces.push(AnyPiece::Pawn(black));
        }
    }
    for piece in pieces {
        let squares = piece.moves_on_board();
        for x in 0..9 {
            for y in 0..9 {
                if piece.can_move(x, y, &grid) {
                    assert!(squares.contains(&(x, y)), "{:?} to {}, {}", piece, x, y);
                }
            }
        }
        for (x, y) in squares {
            assert!(x < 8 && y < 8);
            assert!((x, y) != piece.get_pos());
        }
    }
}

#[test]
fn a_pawn_steps_ahead_onto_empty_squares_and_takes_diagonally() {
    let mut grid = empty_grid();
    let pawn = Pawn::new(3, 1, PieceColor::WHITE);
    assert!(pawn.can_move(3, 2, &grid));
    assert!(pawn.can_move(3, 3, &grid));
    assert!(!pawn.can_move(3, 4, &grid));
    assert!(!pawn.can_move(3, 0, &grid));
    assert!(!pawn.can_move(2, 2, &grid));
    assert!(!pawn.can_move(4, 2, &grid));
    assert!(!pawn.can_move(4, 3, &grid));
    assert!(!pawn.can_move(3, 1, &grid));
    grid[2][2] = QuickPiece::PIECE(PieceColor::BLACK);
    grid[4][2] = QuickPiece::PIECE(PieceColor::WHITE);
    assert!(pawn.can_move(2, 2, &grid));
    assert!(!pawn.can_move(4, 2, &grid));
    grid[3][3] = QuickPiece::PIECE(PieceColor::BLACK);
    assert!(pawn.can_move(3, 2, &grid));
    assert!(!pawn.can_move(3, 3, &grid));
    grid[3][3] = QuickPiece::EMPTY;
    grid[3][2] = QuickPiece::KING(PieceColor::BLACK);
    assert!(!pawn.can_move(3, 2, &grid));
    assert!(!pawn.can_move(3, 3, &grid));
    // Once it has left the rank on which it was set up it steps by one.
    let mut moved = Pawn::new(5, 1, PieceColor::WHITE);
    moved.set_pos(5, 2);
    assert!(moved.can_move(5, 3, &grid));
    assert!(!moved.can_move(5, 4, &grid));
    assert!(moved.has_moved());
    assert!(!pawn.has_moved());
    assert!(pawn.is_moving_forward(2));
    assert!(!pawn.is_moving_forward(1));
    let black = Pawn::new(6, 6, PieceColor::BLACK);
    assert!(black.is_moving_forward(5));
    assert!(!black.is_moving_forward(7));
    assert!(black.can_move(6, 4, &grid));
    assert!(black.can_move(6, 5, &grid));
    assert!(!black.can_move(6, 7, &grid));
}

#[test]
fn a_piece_off_the_board_moves_nowhere() {
    let grid = empty_grid();
    let pieces = [
        AnyPiece::King(King::new(8, 0, PieceColor::WHITE)),
        AnyPiece::Queen(Queen::new(3, 8, PieceColor::WHITE)),
        AnyPiece::Bishop(Bishop::new(9, 9, PieceColor::WHITE)),
        AnyPiece::Knight(Knight::new(8, 1, PieceColor::WHITE)),
        AnyPiece::Rook(Rook::new(8, 3, PieceColor::WHITE)),
        AnyPiece::Pawn(Pawn::new(3, 8, PieceColor::BLACK)),
    ];
    for piece in pieces.iter() {
        assert_eq!(piece.moves_on_board(), Vec::<(usize, usize)>::new());
        for x in 0..8 {
            for y in 0..8 {
                assert!(!piece.can_move(x, y, &grid));
            }
        }
    }
}

#[test]
fn a_piece_is_made_from_its_letter() {
    let queen = AnyPiece::from_piece_character(&"Q".to_string(), 3, 0, PieceColor::WHITE);
    assert_eq!(queen, AnyPiece::Queen(Queen::new(3, 0, PieceColor::WHITE)));
    let knight = AnyPiece::from_piece_character(&"Nf3".to_string(), 5, 2, PieceColor::BLACK);
    assert_eq!(knight, AnyPiece::Knight(Knight::new(5, 2, PieceColor::BLACK)));
    assert_eq!(
        AnyPiece::from_letter('P', 2, 6, PieceColor::BLACK),
        Some(AnyPiece::Pawn(Pawn::new(2, 6, PieceColor::BLACK)))
    );
    assert_eq!(AnyPiece::from_letter('X', 2, 6, PieceColor::BLACK), None);
    for letter in ['K', 'Q', 'B', 'N', 'R', 'P'] {
        let piece = AnyPiece::from_letter(letter, 1, 2, PieceColor::WHITE).unwrap();
        assert_eq!(piece.get_letter(), letter);
        assert_eq!(piece.get_pos(), (1, 2));
        assert_eq!(piece.get_color(), PieceColor::WHITE);
        let shown = if letter == 'K' {
            QuickPiece::KING(PieceColor::WHITE)
        } else {
            QuickPiece::PIECE(PieceColor::WHITE)
        };
        assert_eq!(piece.quick_piece(), shown);
    }
    let mut rook = Rook::new(0, 0, PieceColor::WHITE);
    assert!(!rook.get_has_moved());
    rook.set_has_moved(true);
    assert!(rook.get_has_moved());
    rook.set_pos(0, 4);
    assert!(rook.get_has_moved());
    assert_eq!(rook.get_pos(), (0, 4));
    let mut king = King::new(4, 0, PieceColor::WHITE);
    king.set_has_moved(true);
    assert!(king.get_has_moved());
}
