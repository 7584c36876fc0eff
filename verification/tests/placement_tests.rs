use battleship::board::{Board, CellState, GameError, GRID_SIZE};
use battleship::fleet::fleet;
use battleship::placement::{can_place, place, Orientation};

fn cells_holding(board: &Board, state: CellState) -> usize {
    let mut n = 0;
    for row in 0..GRID_SIZE {
        for col in 0..GRID_SIZE {
            if board.get(row, col) == Ok(state) {
                n += 1;
            }
        }
    }
    n
}

fn snapshot(board: &Board) -> Vec<CellState> {
    let mut cells = Vec::new();
    for row in 0..GRID_SIZE {
        for col in 0..GRID_SIZE {
            cells.push(board.get(row, col).unwrap());
        }
    }
    cells
}

#[test]
fn horizontal_placement_covers_a_row_segment() {
    let mut board = Board::new();
    assert_eq!(place(&mut board, 2, 3, 4, Orientation::Horizontal), Ok(()));
    for row in 0..GRID_SIZE {
        for col in 0..GRID_SIZE {
            let covered = row == 2 && (3..7).contains(&col);
            let expected = if covered { CellState::Occupied } else { CellState::Empty };
            assert_eq!(board.get(row, col), Ok(expected));
        }
    }
}

#[test]
fn vertical_placement_covers_a_column_segment() {
    let mut board = Board::new();
    assert_eq!(place(&mut board, 5, 9, 5, Orientation::Vertical), Ok(()));
    for row in 0..GRID_SIZE {
        for col in 0..GRID_SIZE {
            let covered = col == 9 && row >= 5;
            let expected = if covered { CellState::Occupied } else { CellState::Empty };
            assert_eq!(board.get(row, col), Ok(expected));
        }
    }
}

#[test]
fn overlap_is_rejected_and_board_unchanged() {
    let mut board = Board::new();
    place(&mut board, 4, 4, 3, Orientation::Vertical).unwrap();
    let before = snapshot(&board);
    assert!(!can_place(&board, 5, 2, 3, Orientation::Horizontal));
    assert_eq!(
        place(&mut board, 5, 2, 3, Orientation::Horizontal),
        Err(GameError::PlacementRejected)
    );
    assert_eq!(snapshot(&board), before);
    assert_eq!(cells_holding(&board, CellState::Occupied), 3);
}

#[test]
fn ship_leaving_the_grid_is_rejected() {
    let mut board = Board::new();
    assert!(!can_place(&board, 0, 6, 5, Orientation::Horizontal));
    assert_eq!(
        place(&mut board, 0, 6, 5, Orientation::Horizontal),
        Err(GameError::PlacementRejected)
    );
    assert_eq!(cells_holding(&board, CellState::Empty), 100);
    assert!(can_place(&board, 0, 5, 5, Orientation::Horizontal));
    assert!(!can_place(&board, 6, 0, 5, Orientation::Vertical));
    assert!(can_place(&board, 5, 0, 5, Orientation::Vertical));
}

#[test]
fn origin_outside_the_grid_is_rejected() {
    let board = Board::new();
    assert!(!can_place(&board, 10, 0, 2, Orientation::Horizontal));
    assert!(!can_place(&board, 0, 10, 2, Orientation::Vertical));
    assert!(!can_place(&board, usize::MAX, 0, 2, Orientation::Vertical));
    assert!(!can_place(&board, 0, usize::MAX, usize::MAX, Orientation::Horizontal));
}

#[test]
fn ship_without_cells_fits_anywhere() {
    let mut board = Board::new();
    assert!(can_place(&board, 3, 3, 0, Orientation::Horizontal));
    assert!(can_place(&board, 40, 40, 0, Orientation::Vertical));
    assert_eq!(place(&mut board, 3, 3, 0, Orientation::Horizontal), Ok(()));
    assert_eq!(cells_holding(&board, CellState::Empty), 100);
}

#[test]
fn shot_cells_block_a_placement() {
    let mut board = Board::new();
    board.apply_shot(0, 2).unwrap();
    assert!(!can_place(&board, 0, 0, 3, Orientation::Horizontal));
    assert!(can_place(&board, 0, 0, 2, Orientation::Horizontal));
}

#[test]
fn can_place_does_not_change_the_board() {
    let mut board = Board::new();
    place(&mut board, 1, 1, 2, Orientation::Horizontal).unwrap();
    let before = snapshot(&board);
    assert!(can_place(&board, 7, 7, 3, Orientation::Horizontal));
    assert!(!can_place(&board, 1, 0, 3, Orientation::Horizontal));
    assert_eq!(snapshot(&board), before);
}

#[test]
fn whole_fleet_occupies_seventeen_cells() {
    let mut board = Board::new();
    let mut row = 0;
    for ship in fleet() {
        assert_eq!(place(&mut board, row, 1, ship.size(), Orientation::Horizontal), Ok(()));
        row += 2;
    }
    assert_eq!(cells_holding(&board, CellState::Occupied), 17);
    assert_eq!(cells_holding(&board, CellState::Empty), 83);
}

#[test]
fn whole_fleet_in_mixed_directions_occupies_seventeen_cells() {
    let mut board = Board::new();
    assert_eq!(place(&mut board, 0, 0, 5, Orientation::Vertical), Ok(()));
    assert_eq!(place(&mut board, 0, 1, 4, Orientation::Horizontal), Ok(()));
    assert_eq!(place(&mut board, 9, 7, 3, Orientation::Horizontal), Ok(()));
    assert_eq!(place(&mut board, 4, 5, 3, Orientation::Vertical), Ok(()));
    assert_eq!(place(&mut board, 8, 0, 2, Orientation::Vertical), Ok(()));
    assert_eq!(cells_holding(&board, CellState::Occupied), 17);
}
