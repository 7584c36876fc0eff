use battleship::board::{Board, CellState, GameError, ShotResult, CELL_COUNT, GRID_SIZE};

#[test]
fn new_board_is_open_water() {
    let board = Board::new();
    for row in 0..GRID_SIZE {
        for col in 0..GRID_SIZE {
            assert_eq!(board.get(row, col), Ok(CellState::Empty));
        }
    }
    assert_eq!(GRID_SIZE * GRID_SIZE, CELL_COUNT);
}

#[test]
fn get_outside_the_grid_is_out_of_bounds() {
    let board = Board::new();
    assert_eq!(board.get(10, 0), Err(GameError::OutOfBounds));
    assert_eq!(board.get(0, 10), Err(GameError::OutOfBounds));
    assert_eq!(board.get(usize::MAX, usize::MAX), Err(GameError::OutOfBounds));
    assert_eq!(board.get(9, 9), Ok(CellState::Empty));
}

#[test]
fn set_occupied_marks_one_cell() {
    let mut board = Board::new();
    assert_eq!(board.set_occupied(3, 4), Ok(()));
    for row in 0..GRID_SIZE {
        for col in 0..GRID_SIZE {
            let expected =
                if (row, col) == (3, 4) { CellState::Occupied } else { CellState::Empty };
            assert_eq!(board.get(row, col), Ok(expected));
        }
    }
}

#[test]
fn set_occupied_rejects_bad_cells() {
    let mut board = Board::new();
    assert_eq!(board.set_occupied(10, 4), Err(GameError::OutOfBounds));
    assert_eq!(board.set_occupied(4, 10), Err(GameError::OutOfBounds));
    assert_eq!(board.set_occupied(2, 2), Ok(()));
    assert_eq!(board.set_occupied(2, 2), Err(GameError::PlacementRejected));
    assert_eq!(board.apply_shot(5, 5), Ok(ShotResult::Miss));
    assert_eq!(board.set_occupied(5, 5), Err(GameError::PlacementRejected));
    assert_eq!(board.get(5, 5), Ok(CellState::Miss));
    assert_eq!(board.get(2, 2), Ok(CellState::Occupied));
}

#[test]
fn shot_at_ship_is_a_hit() {
    let mut board = Board::new();
    board.set_occupied(1, 7).unwrap();
    assert_eq!(board.apply_shot(1, 7), Ok(ShotResult::Hit));
    assert_eq!(board.get(1, 7), Ok(CellState::Hit));
}

#[test]
fn shot_at_water_is_a_miss() {
    let mut board = Board::new();
    assert_eq!(board.apply_shot(0, 0), Ok(ShotResult::Miss));
    assert_eq!(board.get(0, 0), Ok(CellState::Miss));
    assert_eq!(board.get(0, 1), Ok(CellState::Empty));
}

#[test]
fn second_shot_is_already_resolved() {
    let mut board = Board::new();
    board.set_occupied(6, 6).unwrap();
    assert_eq!(board.apply_shot(6, 6), Ok(ShotResult::Hit));
    assert_eq!(board.apply_shot(6, 6), Ok(ShotResult::AlreadyResolved));
    assert_eq!(board.get(6, 6), Ok(CellState::Hit));
    assert_eq!(board.apply_shot(6, 7), Ok(ShotResult::Miss));
    assert_eq!(board.apply_shot(6, 7), Ok(ShotResult::AlreadyResolved));
    assert_eq!(board.get(6, 7), Ok(CellState::Miss));
}

#[test]
fn shot_outside_the_grid_changes_nothing() {
    let mut board = Board::new();
    board.set_occupied(9, 9).unwrap();
    assert_eq!(board.apply_shot(10, 9), Err(GameError::OutOfBounds));
    assert_eq!(board.apply_shot(9, 10), Err(GameError::OutOfBounds));
    assert_eq!(board.get(9, 9), Ok(CellState::Occupied));
    let mut water = 0;
    for row in 0..GRID_SIZE {
        for col in 0..GRID_SIZE {
            if board.get(row, col) == Ok(CellState::Empty) {
                water += 1;
            }
        }
    }
    assert_eq!(water, 99);
}
