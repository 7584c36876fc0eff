//! The board: a square grid of cells, one board per side.

use vstd::prelude::*;

verus! {

/// The side length of a board.
pub const GRID_SIZE: usize = 10;

/// The number of cells of a board.
pub const CELL_COUNT: usize = GRID_SIZE * GRID_SIZE;

/// What one cell of a board holds.
#[derive(Copy, Clone, PartialEq, Eq, Structural, Debug)]
pub enum CellState {
    /// Open water that nobody has shot at.
    Empty,
    /// Part of a ship that has not been shot at.
    Occupied,
    /// Part of a ship that was shot.
    Hit,
    /// Open water that was shot.
    Miss,
}

/// What a shot at a cell did.
#[derive(Copy, Clone, PartialEq, Eq, Structural, Debug)]
pub enum ShotResult {
    /// The cell had been shot before; nothing changed.
    AlreadyResolved,
    /// The cell held part of a ship.
    Hit,
    /// The cell held open water.
    Miss,
}

/// Why the engine turned a request down. The state is unchanged whenever one
/// of these is returned.
#[derive(Copy, Clone, PartialEq, Eq, Structural, Debug)]
pub enum GameError {
    /// A coordinate lies outside the grid.
    OutOfBounds,
    /// A ship would leave the grid or cover a cell that is not empty.
    PlacementRejected,
    /// The request is not allowed in the current phase or turn.
    InvalidIntentForPhase,
}

/// Whether `(row, col)` names a cell of the grid.
pub open spec fn in_bounds(row: int, col: int) -> bool {
    0 <= row < GRID_SIZE && 0 <= col < GRID_SIZE
}

/// The position of cell `(row, col)` in a board's row-major sequence of cells.
pub open spec fn cell_index(row: int, col: int) -> int {
    row * GRID_SIZE + col
}

/// Whether a cell has been shot at.
pub open spec fn is_resolved(cell: CellState) -> bool {
    cell == CellState::Hit || cell == CellState::Miss
}

/// What a shot at a cell holding `cell` reports.
pub open spec fn shot_result(cell: CellState) -> ShotResult {
    match cell {
        CellState::Occupied => ShotResult::Hit,
        CellState::Empty => ShotResult::Miss,
        CellState::Hit => ShotResult::AlreadyResolved,
        CellState::Miss => ShotResult::AlreadyResolved,
    }
}

/// What a cell holding `cell` holds after a shot at it.
pub open spec fn cell_after_shot(cell: CellState) -> CellState {
    match cell {
        CellState::Occupied => CellState::Hit,
        CellState::Empty => CellState::Miss,
        CellState::Hit => CellState::Hit,
        CellState::Miss => CellState::Miss,
    }
}

/// The answer to a question about cell `(row, col)`: what the cell holds, or
/// `OutOfBounds` for a coordinate outside the grid.
pub open spec fn cell_lookup(cells: Seq<CellState>, row: int, col: int) -> Result<
    CellState,
    GameError,
> {
    if in_bounds(row, col) {
        Ok(cells[cell_index(row, col)])
    } else {
        Err(GameError::OutOfBounds)
    }
}

/// The cells of a board after a shot at position `index`.
pub open spec fn after_shot(cells: Seq<CellState>, index: int) -> Seq<CellState> {
    cells.update(index, cell_after_shot(cells[index]))
}

/// The answer to a shot at cell `(row, col)`: what the shot did, or
/// `OutOfBounds` for a coordinate outside the grid.
pub open spec fn shot_at_result(cells: Seq<CellState>, row: int, col: int) -> Result<
    ShotResult,
    GameError,
> {
    if in_bounds(row, col) {
        Ok(shot_result(cells[cell_index(row, col)]))
    } else {
        Err(GameError::OutOfBounds)
    }
}

/// The cells of a board after a shot at cell `(row, col)`; a shot outside the
/// grid changes nothing.
pub open spec fn after_shot_at(cells: Seq<CellState>, row: int, col: int) -> Seq<CellState> {
    if in_bounds(row, col) {
        after_shot(cells, cell_index(row, col))
    } else {
        cells
    }
}

/// The answer to a request to put part of a ship on cell `(row, col)`: it is
/// granted for an empty cell of the grid.
pub open spec fn occupy_result(cells: Seq<CellState>, row: int, col: int) -> Result<
    (),
    GameError,
> {
    if !in_bounds(row, col) {
        Err(GameError::OutOfBounds)
    } else if cells[cell_index(row, col)] != CellState::Empty {
        Err(GameError::PlacementRejected)
    } else {
        Ok(())
    }
}

/// The cells of a board after a request to put part of a ship on cell
/// `(row, col)`: the cell is occupied if the request was granted.
pub open spec fn after_occupy(cells: Seq<CellState>, row: int, col: int) -> Seq<CellState> {
    if occupy_result(cells, row, col) is Ok {
        cells.update(cell_index(row, col), CellState::Occupied)
    } else {
        cells
    }
}

/// How many of the first `n` cells hold `state`.
pub open spec fn count_prefix(cells: Seq<CellState>, state: CellState, n: nat) -> nat
    decreases n,
{
    if n == 0 {
        0
    } else {
        count_prefix(cells, state, (n - 1) as nat) + if cells[n - 1] == state {
            1nat
        } else {
            0nat
        }
    }
}

/// How many cells hold `state`.
pub open spec fn count(cells: Seq<CellState>, state: CellState) -> nat {
    count_prefix(cells, state, cells.len())
}

/// Whether every cell is empty.
pub open spec fn is_fresh(cells: Seq<CellState>) -> bool {
    forall|k: int| 0 <= k < cells.len() ==> cells[k] == CellState::Empty
}

/// The cells of a board of open water.
pub open spec fn fresh_cells() -> Seq<CellState> {
    Seq::new(CELL_COUNT as nat, |k: int| CellState::Empty)
}

/// One side's grid of cells.
pub struct Board {
    cells: Vec<CellState>,
}

impl View for Board {
    type V = Seq<CellState>;

    /// The cells in row-major order: cell `(row, col)` is at `cell_index(row, col)`.
    closed spec fn view(&self) -> Seq<CellState> {
        self.cells@
    }
}

impl Board {
    /// A board holds one state for each cell of the grid.
    pub open spec fn wf(&self) -> bool {
        self@.len() == CELL_COUNT
    }

    /// The state of cell `(row, col)`.
    pub open spec fn cell(&self, row: int, col: int) -> CellState {
        self@[cell_index(row, col)]
    }

    /// A board of open water.
    pub fn new() -> (board: Board)
        ensures
            board.wf(),
            is_fresh(board@),
            board@ == fresh_cells(),
    {
        let mut cells: Vec<CellState> = Vec::new();
        let mut i: usize = 0;
        while i < CELL_COUNT
            invariant
                i <= CELL_COUNT,
                cells@.len() == i,
                forall|k: int| 0 <= k < i ==> cells@[k] == CellState::Empty,
            decreases CELL_COUNT - i,
        {
            cells.push(CellState::Empty);
            i += 1;
        }
        assert(cells@ =~= fresh_cells());
        Board { cells }
    }

    /// The state of cell `(row, col)`, or `OutOfBounds` for a coordinate
    /// outside the grid.
    pub fn get(&self, row: usize, col: usize) -> (result: Result<CellState, GameError>)
        requires
            self.wf(),
        ensures
            result == cell_lookup(self@, row as int, col as int),
    {
        if row >= GRID_SIZE || col >= GRID_SIZE {
            return Err(GameError::OutOfBounds);
        }
        Ok(self.cells[row * GRID_SIZE + col])
    }

    /// Puts part of a ship on the empty cell `(row, col)`.
    ///
    /// A coordinate outside the grid is answered with `OutOfBounds`, a cell
    /// that is not empty with `PlacementRejected`; in both cases the board is
    /// unchanged.
    pub fn set_occupied(&mut self, row: usize, col: usize) -> (result: Result<(), GameError>)
        requires
            old(self).wf(),
        ensures
            final(self).wf(),
            result == occupy_result(old(self)@, row as int, col as int),
            final(self)@ == after_occupy(old(self)@, row as int, col as int),
    {
        if row >= GRID_SIZE || col >= GRID_SIZE {
            return Err(GameError::OutOfBounds);
        }
        let index: usize = row * GRID_SIZE + col;
        match self.cells[index] {
            CellState::Empty => {
                self.cells.set(index, CellState::Occupied);
                Ok(())
            },
            _ => Err(GameError::PlacementRejected),
        }
    }

    /// Shoots at cell `(row, col)`.
    ///
    /// A ship's cell becomes `Hit` and open water becomes `Miss`. A cell that
    /// was shot before stays as it is and the shot is reported as
    /// `AlreadyResolved`. A coordinate outside the grid is answered with
    /// `OutOfBounds` and changes nothing.
    pub fn apply_shot(&mut self, row: usize, col: usize) -> (result: Result<
        ShotResult,
        GameError,
    >)
        requires
            old(self).wf(),
        ensures
            final(self).wf(),
            result == shot_at_result(old(self)@, row as int, col as int),
            final(self)@ == after_shot_at(old(self)@, row as int, col as int),
    {
        if row >= GRID_SIZE || col >= GRID_SIZE {
            return Err(GameError::OutOfBounds);
        }
        let index: usize = row * GRID_SIZE + col;
        let result = match self.cells[index] {
            CellState::Occupied => {
                self.cells.set(index, CellState::Hit);
                ShotResult::Hit
            },
            CellState::Empty => {
                self.cells.set(index, CellState::Miss);
                ShotResult::Miss
            },
            _ => ShotResult::AlreadyResolved,
        };
        assert(self@ =~= after_shot(old(self)@, index as int));
        Ok(result)
    }
}

/// A cell of the grid has a position in the sequence of cells, and row and
/// column can be read back from that position.
pub proof fn lemma_cell_index(row: int, col: int)
    requires
        in_bounds(row, col),
    ensures
        0 <= cell_index(row, col) < CELL_COUNT,
        cell_index(row, col) / (GRID_SIZE as int) == row,
        cell_index(row, col) % (GRID_SIZE as int) == col,
{
}

/// Counting over a prefix does not see changes behind the prefix, and a
/// change inside it moves the count by at most one in each direction.
pub proof fn lemma_count_prefix_update(
    cells: Seq<CellState>,
    state: CellState,
    n: nat,
    index: int,
    value: CellState,
)
    requires
        n <= cells.len(),
        0 <= index < cells.len(),
    ensures
        index >= n ==> count_prefix(cells.update(index, value), state, n) == count_prefix(
            cells,
            state,
            n,
        ),
        index < n ==> count_prefix(cells.update(index, value), state, n) + (if cells[index]
            == state {
            1nat
        } else {
            0nat
        }) == count_prefix(cells, state, n) + (if value == state {
            1nat
        } else {
            0nat
        }),
    decreases n,
{
    if n > 0 {
        lemma_count_prefix_update(cells, state, (n - 1) as nat, index, value);
    }
}

/// Writing `value` into one cell lowers the count of the state that the cell
/// held by one and raises the count of `value` by one.
pub proof fn lemma_count_update(
    cells: Seq<CellState>,
    state: CellState,
    index: int,
    value: CellState,
)
    requires
        0 <= index < cells.len(),
    ensures
        count(cells.update(index, value), state) + (if cells[index] == state {
            1nat
        } else {
            0nat
        }) == count(cells, state) + (if value == state {
            1nat
        } else {
            0nat
        }),
{
    lemma_count_prefix_update(cells, state, cells.len(), index, value);
}

/// No more cells of a prefix hold a state than the prefix has cells, and all
/// of them do only if each one does.
pub proof fn lemma_count_prefix_bound(cells: Seq<CellState>, state: CellState, n: nat)
    requires
        n <= cells.len(),
    ensures
        count_prefix(cells, state, n) <= n,
        count_prefix(cells, state, n) == n <==> (forall|k: int| 0 <= k < n ==> cells[k] == state),
        count_prefix(cells, state, n) > 0 <==> (exists|k: int| 0 <= k < n && cells[k] == state),
    decreases n,
{
    if n > 0 {
        lemma_count_prefix_bound(cells, state, (n - 1) as nat);
        if count_prefix(cells, state, n) > 0 {
            if cells[n - 1] == state {
                assert(0 <= n - 1 < n && cells[n - 1] == state);
            } else {
                let k = choose|k: int| 0 <= k < n - 1 && cells[k] == state;
                assert(0 <= k < n && cells[k] == state);
            }
        }
    }
}

/// A shot turns one occupied cell into a hit or one empty cell into a miss,
/// or changes nothing; an occupied cell is counted before it is shot.
pub proof fn lemma_shot_counts(cells: Seq<CellState>, index: int)
    requires
        0 <= index < cells.len(),
    ensures
        after_shot(cells, index).len() == cells.len(),
        cells[index] == CellState::Occupied ==> count(cells, CellState::Occupied) > 0 && count(
            after_shot(cells, index),
            CellState::Occupied,
        ) == count(cells, CellState::Occupied) - 1 && count(
            after_shot(cells, index),
            CellState::Hit,
        ) == count(cells, CellState::Hit) + 1,
        cells[index] != CellState::Occupied ==> count(
            after_shot(cells, index),
            CellState::Occupied,
        ) == count(cells, CellState::Occupied) && count(after_shot(cells, index), CellState::Hit)
            == count(cells, CellState::Hit),
        is_resolved(cells[index]) ==> after_shot(cells, index) == cells,
{
    let value = cell_after_shot(cells[index]);
    lemma_count_update(cells, CellState::Occupied, index, value);
    lemma_count_update(cells, CellState::Hit, index, value);
    lemma_count_prefix_bound(cells, CellState::Occupied, cells.len());
    if is_resolved(cells[index]) {
        assert(after_shot(cells, index) =~= cells);
    }
}

/// Whether a cell that held `before` may hold `after` later on: a cell keeps
/// its state, or a ship is put on open water, or a shot turns a ship's cell
/// into a hit or open water into a miss.
pub open spec fn cell_step(before: CellState, after: CellState) -> bool {
    ||| after == before
    ||| before == CellState::Empty && after == CellState::Occupied
    ||| before == CellState::Occupied && after == CellState::Hit
    ||| before == CellState::Empty && after == CellState::Miss
}

/// A shot changes no cell but its target, and the target only from occupied
/// to hit or from empty to miss.
pub proof fn lemma_shot_steps(cells: Seq<CellState>, index: int)
    requires
        0 <= index < cells.len(),
    ensures
        forall|k: int|
            0 <= k < cells.len() && k != index ==> #[trigger] after_shot(cells, index)[k]
                == cells[k],
        after_shot(cells, index)[index] != cells[index] ==> (cells[index] == CellState::Occupied
            && after_shot(cells, index)[index] == CellState::Hit) || (cells[index]
            == CellState::Empty && after_shot(cells, index)[index] == CellState::Miss),
        forall|k: int|
            0 <= k < cells.len() ==> cell_step(cells[k], #[trigger] after_shot(cells, index)[k]),
{
}

/// Shooting a cell a second time reports that it was resolved and changes
/// nothing: a hit stays a hit and a miss stays a miss.
pub proof fn lemma_shot_idempotent(cells: Seq<CellState>, row: int, col: int)
    requires
        cells.len() == CELL_COUNT,
        in_bounds(row, col),
    ensures
        shot_at_result(after_shot_at(cells, row, col), row, col) matches Ok(
            ShotResult::AlreadyResolved,
        ),
        after_shot_at(after_shot_at(cells, row, col), row, col) == after_shot_at(cells, row, col),
        is_resolved(after_shot_at(cells, row, col)[cell_index(row, col)]),
        cells[cell_index(row, col)] == CellState::Occupied ==> after_shot_at(
            cells,
            row,
            col,
        )[cell_index(row, col)] == CellState::Hit,
        cells[cell_index(row, col)] == CellState::Empty ==> after_shot_at(
            cells,
            row,
            col,
        )[cell_index(row, col)] == CellState::Miss,
{
    lemma_cell_index(row, col);
    assert(after_shot_at(after_shot_at(cells, row, col), row, col) =~= after_shot_at(
        cells,
        row,
        col,
    ));
}

} // verus!
