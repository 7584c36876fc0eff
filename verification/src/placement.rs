//! Ship placement: which placements are legal, and what a placement does to a
//! board.

use vstd::prelude::*;
use crate::board::{
    cell_index, cell_step, count, in_bounds, is_fresh, lemma_cell_index, lemma_count_prefix_bound,
    lemma_count_update, Board, CellState, GameError, CELL_COUNT, GRID_SIZE,
};
use crate::fleet::{ShipType, WIN_CONDITION};

verus! {

/// The direction in which a ship extends from its origin cell.
#[derive(Copy, Clone, PartialEq, Eq, Structural, Debug)]
pub enum Orientation {
    /// Along the row, towards higher columns.
    Horizontal,
    /// Along the column, towards higher rows.
    Vertical,
}

/// One ship put on a board: its kind, its origin cell and its direction.
#[derive(Copy, Clone, PartialEq, Eq, Structural, Debug)]
pub struct Placement {
    pub kind: ShipType,
    pub row: usize,
    pub col: usize,
    pub orientation: Orientation,
}

/// The row of the `i`-th cell of a ship.
pub open spec fn ship_row(row: int, orientation: Orientation, i: int) -> int {
    match orientation {
        Orientation::Horizontal => row,
        Orientation::Vertical => row + i,
    }
}

/// The column of the `i`-th cell of a ship.
pub open spec fn ship_col(col: int, orientation: Orientation, i: int) -> int {
    match orientation {
        Orientation::Horizontal => col + i,
        Orientation::Vertical => col,
    }
}

/// Whether the `i`-th cell of a ship lies on the grid and is empty.
pub open spec fn ship_cell_free(
    cells: Seq<CellState>,
    row: int,
    col: int,
    orientation: Orientation,
    i: int,
) -> bool {
    &&& in_bounds(ship_row(row, orientation, i), ship_col(col, orientation, i))
    &&& cells[cell_index(ship_row(row, orientation, i), ship_col(col, orientation, i))]
        == CellState::Empty
}

/// Whether a ship of `length` cells may be put at `(row, col)`: each of its
/// cells lies on the grid and is empty.
pub open spec fn can_place_spec(
    cells: Seq<CellState>,
    row: int,
    col: int,
    length: int,
    orientation: Orientation,
) -> bool {
    forall|i: int| 0 <= i < length ==> #[trigger] ship_cell_free(cells, row, col, orientation, i)
}

/// Whether cell `(r, c)` is one of the cells of a ship.
pub open spec fn ship_covers(
    row: int,
    col: int,
    length: int,
    orientation: Orientation,
    r: int,
    c: int,
) -> bool {
    match orientation {
        Orientation::Horizontal => r == row && col <= c < col + length,
        Orientation::Vertical => c == col && row <= r < row + length,
    }
}

/// The cells of a board after a ship is put on it: the ship's cells are
/// occupied and all others are as before.
pub open spec fn place_spec(
    cells: Seq<CellState>,
    row: int,
    col: int,
    length: int,
    orientation: Orientation,
) -> Seq<CellState> {
    Seq::new(
        cells.len(),
        |k: int|
            if ship_covers(
                row,
                col,
                length,
                orientation,
                k / (GRID_SIZE as int),
                k % (GRID_SIZE as int),
            ) {
                CellState::Occupied
            } else {
                cells[k]
            },
    )
}

/// The answer to a request to put a ship: it is granted if the placement is
/// legal.
pub open spec fn place_result(
    cells: Seq<CellState>,
    row: int,
    col: int,
    length: int,
    orientation: Orientation,
) -> Result<(), GameError> {
    if can_place_spec(cells, row, col, length, orientation) {
        Ok(())
    } else {
        Err(GameError::PlacementRejected)
    }
}

/// The cells of a board after a request to put a ship: the ship is on the
/// board if the placement is legal, and nothing has changed otherwise.
pub open spec fn after_place(
    cells: Seq<CellState>,
    row: int,
    col: int,
    length: int,
    orientation: Orientation,
) -> Seq<CellState> {
    if can_place_spec(cells, row, col, length, orientation) {
        place_spec(cells, row, col, length, orientation)
    } else {
        cells
    }
}

/// The cells after the placements `placements` were made one after another.
pub open spec fn place_all(cells: Seq<CellState>, placements: Seq<Placement>) -> Seq<CellState>
    decreases placements.len(),
{
    if placements.len() == 0 {
        cells
    } else {
        let p = placements.last();
        place_spec(
            place_all(cells, placements.drop_last()),
            p.row as int,
            p.col as int,
            p.kind.spec_size() as int,
            p.orientation,
        )
    }
}

/// Whether each of `placements` is legal on the board that the placements
/// before it leave.
pub open spec fn placements_legal(cells: Seq<CellState>, placements: Seq<Placement>) -> bool
    decreases placements.len(),
{
    if placements.len() == 0 {
        true
    } else {
        let p = placements.last();
        &&& placements_legal(cells, placements.drop_last())
        &&& can_place_spec(
            place_all(cells, placements.drop_last()),
            p.row as int,
            p.col as int,
            p.kind.spec_size() as int,
            p.orientation,
        )
    }
}

/// The number of cells that the ships of `placements` cover in all.
pub open spec fn placed_length(placements: Seq<Placement>) -> nat
    decreases placements.len(),
{
    if placements.len() == 0 {
        0
    } else {
        placed_length(placements.drop_last()) + placements.last().kind.spec_size()
    }
}

/// Whether one of `placements` puts a ship of kind `kind`.
pub open spec fn places_kind(placements: Seq<Placement>, kind: ShipType) -> bool {
    exists|i: int| 0 <= i < placements.len() && (#[trigger] placements[i]).kind == kind
}

/// Tells whether a ship of `length` cells may be put on `board` with its
/// origin at `(row, col)`. The board is not changed.
pub fn can_place(
    board: &Board,
    row: usize,
    col: usize,
    length: usize,
    orientation: Orientation,
) -> (legal: bool)
    requires
        board.wf(),
    ensures
        legal == can_place_spec(board@, row as int, col as int, length as int, orientation),
{
    if length == 0 {
        return true;
    }
    if row >= GRID_SIZE || col >= GRID_SIZE {
        assert(!ship_cell_free(board@, row as int, col as int, orientation, 0));
        return false;
    }
    let mut i: usize = 0;
    while i < length
        invariant
            board.wf(),
            row < GRID_SIZE,
            col < GRID_SIZE,
            i <= length,
            i <= GRID_SIZE,
            forall|j: int|
                0 <= j < i ==> #[trigger] ship_cell_free(
                    board@,
                    row as int,
                    col as int,
                    orientation,
                    j,
                ),
        decreases length - i,
    {
        let r: usize = match orientation {
            Orientation::Horizontal => row,
            Orientation::Vertical => row + i,
        };
        let c: usize = match orientation {
            Orientation::Horizontal => col + i,
            Orientation::Vertical => col,
        };
        assert(r == ship_row(row as int, orientation, i as int));
        assert(c == ship_col(col as int, orientation, i as int));
        match board.get(r, c) {
            Ok(CellState::Empty) => {},
            _ => {
                assert(!ship_cell_free(board@, row as int, col as int, orientation, i as int));
                return false;
            },
        }
        assert(ship_cell_free(board@, row as int, col as int, orientation, i as int));
        i += 1;
    }
    true
}

/// Puts a ship of `length` cells on `board` with its origin at `(row, col)`,
/// if that is legal. Otherwise the board is unchanged and the answer is
/// `PlacementRejected`.
pub fn place(
    board: &mut Board,
    row: usize,
    col: usize,
    length: usize,
    orientation: Orientation,
) -> (result: Result<(), GameError>)
    requires
        old(board).wf(),
    ensures
        final(board).wf(),
        result == place_result(old(board)@, row as int, col as int, length as int, orientation),
        final(board)@ == after_place(
            old(board)@,
            row as int,
            col as int,
            length as int,
            orientation,
        ),
{
    if !can_place(board, row, col, length, orientation) {
        return Err(GameError::PlacementRejected);
    }
    let ghost before = board@;
    assert(board@ =~= place_spec(before, row as int, col as int, 0, orientation));
    let mut i: usize = 0;
    while i < length
        invariant
            board.wf(),
            before.len() == CELL_COUNT,
            i <= length,
            can_place_spec(before, row as int, col as int, length as int, orientation),
            board@ == place_spec(before, row as int, col as int, i as int, orientation),
        decreases length - i,
    {
        assert(ship_cell_free(before, row as int, col as int, orientation, i as int));
        proof {
            lemma_place_step(before, row as int, col as int, i as int, orientation);
        }
        let r: usize = match orientation {
            Orientation::Horizontal => row,
            Orientation::Vertical => row + i,
        };
        let c: usize = match orientation {
            Orientation::Horizontal => col + i,
            Orientation::Vertical => col,
        };
        let _ = board.set_occupied(r, c);
        i += 1;
    }
    Ok(())
}

/// A ship of `length + 1` cells is a ship of `length` cells with one more
/// cell occupied, and that cell is not among the first `length`.
pub proof fn lemma_place_step(
    cells: Seq<CellState>,
    row: int,
    col: int,
    length: int,
    orientation: Orientation,
)
    requires
        cells.len() == CELL_COUNT,
        0 <= length,
        in_bounds(ship_row(row, orientation, length), ship_col(col, orientation, length)),
    ensures
        place_spec(cells, row, col, length + 1, orientation) == place_spec(
            cells,
            row,
            col,
            length,
            orientation,
        ).update(
            cell_index(ship_row(row, orientation, length), ship_col(col, orientation, length)),
            CellState::Occupied,
        ),
        place_spec(cells, row, col, length, orientation)[cell_index(
            ship_row(row, orientation, length),
            ship_col(col, orientation, length),
        )] == cells[cell_index(
            ship_row(row, orientation, length),
            ship_col(col, orientation, length),
        )],
{
    let r = ship_row(row, orientation, length);
    let c = ship_col(col, orientation, length);
    lemma_cell_index(r, c);
    assert(place_spec(cells, row, col, length + 1, orientation) =~= place_spec(
        cells,
        row,
        col,
        length,
        orientation,
    ).update(cell_index(r, c), CellState::Occupied)) by {
        assert forall|k: int| 0 <= k < CELL_COUNT implies place_spec(
            cells,
            row,
            col,
            length + 1,
            orientation,
        )[k] == place_spec(cells, row, col, length, orientation).update(
            cell_index(r, c),
            CellState::Occupied,
        )[k] by {
            if k != cell_index(r, c) {
                assert(k / (GRID_SIZE as int) != r || k % (GRID_SIZE as int) != c);
            }
        }
    }
}

/// A legal placement of a ship of `length` cells turns `length` empty cells
/// into occupied ones and leaves the shot cells alone.
pub proof fn lemma_place_count(
    cells: Seq<CellState>,
    row: int,
    col: int,
    length: int,
    orientation: Orientation,
)
    requires
        cells.len() == CELL_COUNT,
        0 <= length,
        can_place_spec(cells, row, col, length, orientation),
    ensures
        count(place_spec(cells, row, col, length, orientation), CellState::Occupied) == count(
            cells,
            CellState::Occupied,
        ) + length,
        count(place_spec(cells, row, col, length, orientation), CellState::Empty) + length
            == count(cells, CellState::Empty),
        count(place_spec(cells, row, col, length, orientation), CellState::Hit) == count(
            cells,
            CellState::Hit,
        ),
        count(place_spec(cells, row, col, length, orientation), CellState::Miss) == count(
            cells,
            CellState::Miss,
        ),
    decreases length,
{
    if length == 0 {
        assert(place_spec(cells, row, col, length, orientation) =~= cells);
    } else {
        let shorter = place_spec(cells, row, col, length - 1, orientation);
        assert(can_place_spec(cells, row, col, length - 1, orientation));
        lemma_place_count(cells, row, col, length - 1, orientation);
        assert(ship_cell_free(cells, row, col, orientation, length - 1));
        lemma_place_step(cells, row, col, length - 1, orientation);
        let r = ship_row(row, orientation, length - 1);
        let c = ship_col(col, orientation, length - 1);
        lemma_cell_index(r, c);
        lemma_count_update(shorter, CellState::Occupied, cell_index(r, c), CellState::Occupied);
        lemma_count_update(shorter, CellState::Empty, cell_index(r, c), CellState::Occupied);
        lemma_count_update(shorter, CellState::Hit, cell_index(r, c), CellState::Occupied);
        lemma_count_update(shorter, CellState::Miss, cell_index(r, c), CellState::Occupied);
    }
}

/// A ship that would cover a cell that is not empty, or a cell outside the
/// grid, is rejected, and the board stays as it is.
pub proof fn lemma_blocked_placement_is_rejected(
    cells: Seq<CellState>,
    row: int,
    col: int,
    length: int,
    orientation: Orientation,
    i: int,
)
    requires
        0 <= i < length,
        !ship_cell_free(cells, row, col, orientation, i),
    ensures
        !can_place_spec(cells, row, col, length, orientation),
        place_result(cells, row, col, length, orientation) matches Err(
            GameError::PlacementRejected,
        ),
        after_place(cells, row, col, length, orientation) == cells,
{
}

/// A ship that would reach past the last column or the last row is rejected,
/// and the board stays as it is.
pub proof fn lemma_ship_past_the_edge_is_rejected(
    cells: Seq<CellState>,
    row: int,
    col: int,
    length: int,
    orientation: Orientation,
)
    requires
        0 < length,
        match orientation {
            Orientation::Horizontal => col + length > GRID_SIZE,
            Orientation::Vertical => row + length > GRID_SIZE,
        },
    ensures
        !can_place_spec(cells, row, col, length, orientation),
        place_result(cells, row, col, length, orientation) matches Err(
            GameError::PlacementRejected,
        ),
        after_place(cells, row, col, length, orientation) == cells,
{
    lemma_blocked_placement_is_rejected(cells, row, col, length, orientation, length - 1);
}

/// A legal placement changes no cell but from empty to occupied.
pub proof fn lemma_place_steps(
    cells: Seq<CellState>,
    row: int,
    col: int,
    length: int,
    orientation: Orientation,
)
    requires
        cells.len() == CELL_COUNT,
        can_place_spec(cells, row, col, length, orientation),
    ensures
        forall|k: int|
            0 <= k < cells.len() ==> cell_step(
                cells[k],
                #[trigger] place_spec(cells, row, col, length, orientation)[k],
            ),
        forall|k: int|
            0 <= k < cells.len() && #[trigger] place_spec(cells, row, col, length, orientation)[k]
                != cells[k] ==> cells[k] == CellState::Empty,
{
    assert forall|k: int| 0 <= k < cells.len() && #[trigger] place_spec(
        cells,
        row,
        col,
        length,
        orientation,
    )[k] != cells[k] implies cells[k] == CellState::Empty by {
        let r = k / (GRID_SIZE as int);
        let c = k % (GRID_SIZE as int);
        let i = match orientation {
            Orientation::Horizontal => c - col,
            Orientation::Vertical => r - row,
        };
        assert(ship_cell_free(cells, row, col, orientation, i));
    }
}

/// Legal placements, made one after another, occupy as many further cells as
/// their ships are long, and leave the shot cells alone.
pub proof fn lemma_placements_count(cells: Seq<CellState>, placements: Seq<Placement>)
    requires
        cells.len() == CELL_COUNT,
        placements_legal(cells, placements),
    ensures
        place_all(cells, placements).len() == CELL_COUNT,
        count(place_all(cells, placements), CellState::Occupied) == count(
            cells,
            CellState::Occupied,
        ) + placed_length(placements),
        count(place_all(cells, placements), CellState::Empty) + placed_length(placements)
            == count(cells, CellState::Empty),
        count(place_all(cells, placements), CellState::Hit) == count(cells, CellState::Hit),
        count(place_all(cells, placements), CellState::Miss) == count(cells, CellState::Miss),
    decreases placements.len(),
{
    if placements.len() > 0 {
        let p = placements.last();
        lemma_placements_count(cells, placements.drop_last());
        lemma_place_count(
            place_all(cells, placements.drop_last()),
            p.row as int,
            p.col as int,
            p.kind.spec_size() as int,
            p.orientation,
        );
    }
}

/// Once every ship of the fleet has been placed legally on a board of open
/// water, in whatever order, exactly seventeen cells are occupied.
pub proof fn lemma_full_fleet_occupies_seventeen(
    cells: Seq<CellState>,
    placements: Seq<Placement>,
)
    requires
        cells.len() == CELL_COUNT,
        is_fresh(cells),
        placements_legal(cells, placements),
        placements.len() == 5,
        forall|kind: ShipType| #[trigger] places_kind(placements, kind),
    ensures
        count(place_all(cells, placements), CellState::Occupied) == WIN_CONDITION,
{
    lemma_placements_count(cells, placements);
    lemma_count_prefix_bound(cells, CellState::Occupied, cells.len());
    assert(places_kind(placements, ShipType::Carrier));
    assert(places_kind(placements, ShipType::Battleship));
    assert(places_kind(placements, ShipType::Cruiser));
    assert(places_kind(placements, ShipType::Submarine));
    assert(places_kind(placements, ShipType::Destroyer));
    let at_carrier = choose|i: int|
        0 <= i < 5 && (#[trigger] placements[i]).kind == ShipType::Carrier;
    let at_battleship = choose|i: int|
        0 <= i < 5 && (#[trigger] placements[i]).kind == ShipType::Battleship;
    let at_cruiser = choose|i: int|
        0 <= i < 5 && (#[trigger] placements[i]).kind == ShipType::Cruiser;
    let at_submarine = choose|i: int|
        0 <= i < 5 && (#[trigger] placements[i]).kind == ShipType::Submarine;
    let at_destroyer = choose|i: int|
        0 <= i < 5 && (#[trigger] placements[i]).kind == ShipType::Destroyer;
    let four = placements.drop_last();
    let three = four.drop_last();
    let two = three.drop_last();
    let one = two.drop_last();
    assert(placed_length(one.drop_last()) == 0);
    assert(placed_length(one) == placements[0].kind.spec_size());
    assert(placed_length(two) == placed_length(one) + placements[1].kind.spec_size());
    assert(placed_length(three) == placed_length(two) + placements[2].kind.spec_size());
    assert(placed_length(four) == placed_length(three) + placements[3].kind.spec_size());
    assert(placed_length(placements) == placements[0].kind.spec_size()
        + placements[1].kind.spec_size() + placements[2].kind.spec_size()
        + placements[3].kind.spec_size() + placements[4].kind.spec_size());
}

} // verus!
