use battleship::board::{Board, CellState, GameError, GRID_SIZE};
use battleship::fleet::ShipType;
use battleship::opponent::{
    choose_target, first_legal_placement, place_fleet_randomly, place_ship_randomly,
    TargetStrategy, UniformRandom,
};
use battleship::placement::{can_place, place, Orientation};

fn occupied_cells(board: &Board) -> usize {
    let mut n = 0;
    for row in 0..GRID_SIZE {
        for col in 0..GRID_SIZE {
            if board.get(row, col) == Ok(CellState::Occupied) {
                n += 1;
            }
        }
    }
    n
}

fn shoot_everything_but(board: &mut Board, keep: (usize, usize)) {
    for row in 0..GRID_SIZE {
        for col in 0..GRID_SIZE {
            if (row, col) != keep {
                board.apply_shot(row, col).unwrap();
            }
        }
    }
}

#[test]
fn random_fleet_occupies_seventeen_cells() {
    for _ in 0..200 {
        let mut board = Board::new();
        place_fleet_randomly(&mut board);
        assert_eq!(occupied_cells(&board), 17);
        for row in 0..GRID_SIZE {
            for col in 0..GRID_SIZE {
                let cell = board.get(row, col).unwrap();
                assert!(cell == CellState::Occupied || cell == CellState::Empty);
            }
        }
    }
}

#[test]
fn random_ship_lands_on_a_legal_place() {
    for _ in 0..100 {
        let mut board = Board::new();
        place(&mut board, 4, 0, 5, Orientation::Horizontal).unwrap();
        let fresh = {
            let mut b = Board::new();
            place(&mut b, 4, 0, 5, Orientation::Horizontal).unwrap();
            b
        };
        let p = place_ship_randomly(&mut board, ShipType::Battleship).unwrap();
        assert_eq!(p.kind, ShipType::Battleship);
        assert!(can_place(&fresh, p.row, p.col, 4, p.orientation));
        assert_eq!(occupied_cells(&board), 9);
        for i in 0..4 {
            let (row, col) = match p.orientation {
                Orientation::Horizontal => (p.row, p.col + i),
                Orientation::Vertical => (p.row + i, p.col),
            };
            assert_eq!(board.get(row, col), Ok(CellState::Occupied));
        }
    }
}

#[test]
fn random_ship_finds_the_only_free_place() {
    let mut board = Board::new();
    for row in 0..GRID_SIZE {
        for col in 0..GRID_SIZE {
            if !(row == 7 && (3..5).contains(&col)) {
                board.set_occupied(row, col).unwrap();
            }
        }
    }
    let p = place_ship_randomly(&mut board, ShipType::Destroyer).unwrap();
    assert_eq!((p.row, p.col, p.orientation), (7, 3, Orientation::Horizontal));
    assert_eq!(occupied_cells(&board), 100);
}

#[test]
fn random_ship_is_rejected_when_nothing_fits() {
    let mut board = Board::new();
    for row in 0..GRID_SIZE {
        for col in 0..GRID_SIZE {
            if (row + col) % 2 == 0 {
                board.set_occupied(row, col).unwrap();
            }
        }
    }
    assert_eq!(
        place_ship_randomly(&mut board, ShipType::Destroyer),
        Err(GameError::PlacementRejected)
    );
    assert_eq!(occupied_cells(&board), 50);
}

#[test]
fn first_legal_placement_scans_row_by_row() {
    let mut board = Board::new();
    assert_eq!(first_legal_placement(&board, 5), Some((0, 0, Orientation::Horizontal)));
    place(&mut board, 0, 3, 3, Orientation::Horizontal).unwrap();
    assert_eq!(first_legal_placement(&board, 4), Some((0, 0, Orientation::Vertical)));
    assert_eq!(first_legal_placement(&board, 3), Some((0, 0, Orientation::Horizontal)));
    assert_eq!(first_legal_placement(&board, 11), None);
    assert_eq!(first_legal_placement(&board, 0), Some((0, 0, Orientation::Horizontal)));
}

#[test]
fn target_is_a_cell_not_yet_shot() {
    let mut board = Board::new();
    place(&mut board, 2, 2, 3, Orientation::Horizontal).unwrap();
    for step in 0..100 {
        let (row, col) = choose_target(&board).unwrap();
        let cell = board.get(row, col).unwrap();
        assert!(cell == CellState::Empty || cell == CellState::Occupied);
        board.apply_shot(row, col).unwrap();
        let _ = step;
    }
    assert_eq!(choose_target(&board), None);
}

#[test]
fn target_is_the_last_open_cell() {
    let mut board = Board::new();
    board.set_occupied(8, 1).unwrap();
    shoot_everything_but(&mut board, (8, 1));
    assert_eq!(choose_target(&board), Some((8, 1)));
    let mut other = Board::new();
    shoot_everything_but(&mut other, (0, 9));
    assert_eq!(choose_target(&other), Some((0, 9)));
}

#[test]
fn no_target_on_a_board_shot_all_over() {
    let mut board = Board::new();
    shoot_everything_but(&mut board, (10, 10));
    assert_eq!(choose_target(&board), None);
}

#[test]
fn default_strategy_picks_open_cells() {
    let mut strategy = UniformRandom;
    let mut board = Board::new();
    shoot_everything_but(&mut board, (5, 5));
    assert_eq!(strategy.choose_target(&board), Some((5, 5)));
    board.apply_shot(5, 5).unwrap();
    assert_eq!(strategy.choose_target(&board), None);
}

#[test]
fn targets_spread_over_the_board() {
    let board = Board::new();
    let mut seen = std::collections::HashSet::new();
    for _ in 0..400 {
        seen.insert(choose_target(&board).unwrap());
    }
    assert!(seen.len() > 20);
}
