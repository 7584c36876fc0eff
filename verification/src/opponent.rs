//! The scripted opponent: how it picks its targets and where it puts its
//! fleet.

use rand::Rng;
use vstd::prelude::*;
use crate::board::{
    cell_index, count, count_prefix, in_bounds, is_fresh, is_resolved, lemma_count_prefix_bound,
    Board, CellState, GameError, CELL_COUNT, GRID_SIZE,
};
use crate::fleet::{
    fleet, fleet_spec, lemma_fleet_total_length, lemma_total_length_push, total_length, ShipType,
    WIN_CONDITION,
};
use crate::placement::{
    can_place, can_place_spec, lemma_placements_count, place, place_all, place_spec,
    placed_length, placements_legal, ship_cell_free, Orientation, Placement,
};

verus! {

/// How many random origins are tried for one ship before the board is
/// searched cell by cell.
pub const MAX_PLACEMENT_ATTEMPTS: usize = 1000;

/// Draws a number below `bound` with `rand::Rng::gen_range` on the generator
/// that `rand::thread_rng` returns.
///
/// Trusted: the number drawn from the half-open range `0..bound` lies in it.
/// `gen_range` panics on an empty range, which `bound > 0` rules out.
#[verifier::external_body]
fn random_below(bound: usize) -> (value: usize)
    requires
        bound > 0,
    ensures
        value < bound,
{
    rand::thread_rng().gen_range(0..bound)
}

/// Draws a truth value with `rand::Rng::gen` on the generator that
/// `rand::thread_rng` returns. Nothing is claimed of the value.
#[verifier::external_body]
fn random_bool() -> bool {
    rand::thread_rng().gen::<bool>()
}

/// Whether every cell has been shot at.
pub open spec fn all_resolved(cells: Seq<CellState>) -> bool {
    forall|k: int| 0 <= k < cells.len() ==> is_resolved(#[trigger] cells[k])
}

/// A way of picking the next cell to shoot at. The turn controller only
/// relies on what is promised here, so another strategy, one that remembers
/// earlier hits for instance, can take the place of the default one.
pub trait TargetStrategy {
    /// The next target on `board`: a cell of the grid that has not been shot
    /// at, or `None` if no such cell is left.
    fn choose_target(&mut self, board: &Board) -> (target: Option<(usize, usize)>)
        requires
            board.wf(),
        ensures
            target is None <==> all_resolved(board@),
            target matches Some((row, col)) ==> in_bounds(row as int, col as int) && !is_resolved(
                board.cell(row as int, col as int),
            ),
    ;
}

/// The default strategy: each cell that has not been shot at is as likely as
/// any other, and nothing is remembered from one call to the next.
pub struct UniformRandom;

impl TargetStrategy for UniformRandom {
    fn choose_target(&mut self, board: &Board) -> (target: Option<(usize, usize)>) {
        choose_target(board)
    }
}

/// Picks a cell of `board` that has not been shot at, each with the same
/// chance, or `None` if every cell has been shot at.
pub fn choose_target(board: &Board) -> (target: Option<(usize, usize)>)
    requires
        board.wf(),
    ensures
        target is None <==> all_resolved(board@),
        target matches Some((row, col)) ==> in_bounds(row as int, col as int) && !is_resolved(
            board.cell(row as int, col as int),
        ),
{
    let mut open: Vec<usize> = Vec::new();
    let mut k: usize = 0;
    while k < CELL_COUNT
        invariant
            board.wf(),
            k <= CELL_COUNT,
            forall|t: int|
                0 <= t < open@.len() ==> (#[trigger] open@[t]) < CELL_COUNT && !is_resolved(
                    board@[open@[t] as int],
                ),
            open@.len() == 0 ==> forall|j: int| 0 <= j < k ==> is_resolved(#[trigger] board@[j]),
        decreases CELL_COUNT - k,
    {
        match board.get(k / GRID_SIZE, k % GRID_SIZE) {
            Ok(CellState::Empty) | Ok(CellState::Occupied) => {
                open.push(k);
            },
            _ => {},
        }
        k += 1;
    }
    if open.len() == 0 {
        return None;
    }
    let pick: usize = random_below(open.len());
    let index: usize = open[pick];
    assert(!is_resolved(board@[index as int]));
    Some((index / GRID_SIZE, index % GRID_SIZE))
}

/// Searches `board` row by row, and each row from the left, for the first
/// origin at which a ship of `length` cells may be put, along the row if that
/// is legal there and down the column otherwise.
pub fn first_legal_placement(board: &Board, length: usize) -> (found: Option<
    (usize, usize, Orientation),
>)
    requires
        board.wf(),
    ensures
        found matches Some((row, col, orientation)) ==> in_bounds(row as int, col as int)
            && can_place_spec(board@, row as int, col as int, length as int, orientation) && (
        orientation == Orientation::Vertical ==> !can_place_spec(
            board@,
            row as int,
            col as int,
            length as int,
            Orientation::Horizontal,
        )) && forall|r: int, c: int, o: Orientation|
            0 <= r && 0 <= c < GRID_SIZE && cell_index(r, c) < cell_index(row as int, col as int)
                ==> !#[trigger] can_place_spec(board@, r, c, length as int, o),
        found is None ==> forall|row: int, col: int, orientation: Orientation|
            !#[trigger] can_place_spec(board@, row, col, length as int, orientation),
{
    if length == 0 {
        assert(can_place_spec(board@, 0, 0, 0, Orientation::Horizontal));
        return Some((0, 0, Orientation::Horizontal));
    }
    let mut k: usize = 0;
    while k < CELL_COUNT
        invariant
            board.wf(),
            k <= CELL_COUNT,
            length > 0,
            forall|row: int, col: int, orientation: Orientation|
                0 <= row && 0 <= col < GRID_SIZE && cell_index(row, col) < k
                    ==> !#[trigger] can_place_spec(board@, row, col, length as int, orientation),
        decreases CELL_COUNT - k,
    {
        let row: usize = k / GRID_SIZE;
        let col: usize = k % GRID_SIZE;
        if can_place(board, row, col, length, Orientation::Horizontal) {
            return Some((row, col, Orientation::Horizontal));
        }
        if can_place(board, row, col, length, Orientation::Vertical) {
            return Some((row, col, Orientation::Vertical));
        }
        k += 1;
    }
    assert forall|row: int, col: int, orientation: Orientation|
        !#[trigger] can_place_spec(board@, row, col, length as int, orientation) by {
        if !in_bounds(row, col) {
            assert(!ship_cell_free(board@, row, col, orientation, 0));
        }
    }
    None
}

/// Puts a ship of kind `kind` on `board` at a random legal place.
///
/// Origins and directions are drawn at random until one is legal. After
/// `MAX_PLACEMENT_ATTEMPTS` draws the board is searched instead, so the
/// answer is `PlacementRejected` only if the ship fits nowhere; the board is
/// then unchanged.
pub fn place_ship_randomly(board: &mut Board, kind: ShipType) -> (result: Result<
    Placement,
    GameError,
>)
    requires
        old(board).wf(),
    ensures
        final(board).wf(),
        result matches Ok(p) ==> p.kind == kind && can_place_spec(
            old(board)@,
            p.row as int,
            p.col as int,
            kind.spec_size() as int,
            p.orientation,
        ) && final(board)@ == place_spec(
            old(board)@,
            p.row as int,
            p.col as int,
            kind.spec_size() as int,
            p.orientation,
        ),
        result matches Err(e) ==> e == GameError::PlacementRejected,
        result is Err ==> final(board)@ == old(board)@,
        result is Err ==> forall|row: int, col: int, orientation: Orientation|
            !#[trigger] can_place_spec(
                old(board)@,
                row,
                col,
                kind.spec_size() as int,
                orientation,
            ),
{
    let length: usize = kind.size();
    let mut attempts: usize = 0;
    while attempts < MAX_PLACEMENT_ATTEMPTS
        invariant
            board.wf(),
            board@ == old(board)@,
            length == kind.spec_size(),
        decreases MAX_PLACEMENT_ATTEMPTS - attempts,
    {
        let row: usize = random_below(GRID_SIZE);
        let col: usize = random_below(GRID_SIZE);
        let orientation = if random_bool() {
            Orientation::Horizontal
        } else {
            Orientation::Vertical
        };
        match place(board, row, col, length, orientation) {
            Ok(()) => {
                return Ok(Placement { kind, row, col, orientation });
            },
            Err(_) => {},
        }
        attempts += 1;
    }
    match first_legal_placement(board, length) {
        Some((row, col, orientation)) => {
            let _ = place(board, row, col, length, orientation);
            Ok(Placement { kind, row, col, orientation })
        },
        None => Err(GameError::PlacementRejected),
    }
}

/// Whether `placements` puts the ships of the fleet, one each, in catalog
/// order.
pub open spec fn places_fleet_in_order(placements: Seq<Placement>) -> bool {
    &&& placements.len() == fleet_spec().len()
    &&& forall|i: int|
        0 <= i < placements.len() ==> (#[trigger] placements[i]).kind == fleet_spec()[i]
}

/// Puts the whole fleet on a board of open water, each ship at a random
/// legal place, in catalog order.
///
/// This always succeeds: seventeen cells are occupied afterwards and the
/// other eighty-three are still open water.
pub fn place_fleet_randomly(board: &mut Board)
    requires
        old(board).wf(),
        is_fresh(old(board)@),
    ensures
        final(board).wf(),
        exists|placements: Seq<Placement>|
            places_fleet_in_order(placements) && #[trigger] placements_legal(
                old(board)@,
                placements,
            ) && final(board)@ == place_all(old(board)@, placements),
        count(final(board)@, CellState::Occupied) == WIN_CONDITION,
        count(final(board)@, CellState::Empty) == CELL_COUNT - WIN_CONDITION,
        count(final(board)@, CellState::Hit) == 0,
        count(final(board)@, CellState::Miss) == 0,
{
    let ships = fleet();
    let ghost before = board@;
    let ghost mut placed: Seq<Placement> = Seq::empty();
    proof {
        lemma_count_prefix_bound(before, CellState::Empty, before.len());
        lemma_count_prefix_bound(before, CellState::Hit, before.len());
        lemma_count_prefix_bound(before, CellState::Miss, before.len());
        lemma_count_prefix_bound(before, CellState::Occupied, before.len());
        assert(fleet_spec().take(0) =~= Seq::<ShipType>::empty());
    }
    let mut i: usize = 0;
    while i < ships.len()
        invariant
            board.wf(),
            before.len() == CELL_COUNT,
            count(before, CellState::Empty) == CELL_COUNT,
            count(before, CellState::Occupied) == 0,
            count(before, CellState::Hit) == 0,
            count(before, CellState::Miss) == 0,
            ships@ == fleet_spec(),
            i <= ships@.len(),
            placed.len() == i,
            forall|j: int| 0 <= j < i ==> (#[trigger] placed[j]).kind == fleet_spec()[j],
            placements_legal(before, placed),
            board@ == place_all(before, placed),
            placed_length(placed) == total_length(fleet_spec().take(i as int)),
        decreases ships@.len() - i,
    {
        let kind = ships[i];
        let ghost current = board@;
        proof {
            lemma_placements_count(before, placed);
            lemma_fleet_prefix_length(i as int);
        }
        let result = place_ship_randomly(board, kind);
        match result {
            Ok(p) => {
                proof {
                    let longer = placed.push(p);
                    assert(longer.drop_last() =~= placed);
                    assert(longer.last() == p);
                    assert(board@ == place_all(before, longer));
                    assert(placements_legal(before, longer));
                    assert(fleet_spec().take(i as int + 1) =~= fleet_spec().take(i as int).push(
                        kind,
                    ));
                    lemma_total_length_push(fleet_spec().take(i as int), kind);
                    placed = longer;
                }
            },
            Err(_) => {
                proof {
                    lemma_room_for_ship(current, kind.spec_size() as int);
                }
                assert(false);
            },
        }
        i += 1;
    }
    proof {
        assert(fleet_spec().take(5) =~= fleet_spec());
        lemma_fleet_total_length();
        lemma_placements_count(before, placed);
        assert(places_fleet_in_order(placed));
    }
}

/// All but the last ship of the fleet cover at most fifteen cells.
pub proof fn lemma_fleet_prefix_length(i: int)
    requires
        0 <= i < fleet_spec().len(),
    ensures
        total_length(fleet_spec().take(i)) <= 15,
{
    let f = fleet_spec();
    assert(f.take(0) =~= Seq::<ShipType>::empty());
    assert(f.take(1) =~= f.take(0).push(f[0]));
    assert(f.take(2) =~= f.take(1).push(f[1]));
    assert(f.take(3) =~= f.take(2).push(f[2]));
    assert(f.take(4) =~= f.take(3).push(f[3]));
    lemma_total_length_push(f.take(0), f[0]);
    lemma_total_length_push(f.take(1), f[1]);
    lemma_total_length_push(f.take(2), f[2]);
    lemma_total_length_push(f.take(3), f[3]);
}

/// Whether one of the five cells from `5 * segment` on is not empty.
pub open spec fn segment_blocked(cells: Seq<CellState>, segment: int) -> bool {
    exists|k: int| 5 * segment <= k < 5 * segment + 5 && #[trigger] cells[k] != CellState::Empty
}

/// If each of the first `n` runs of five cells holds a cell that is not
/// empty, at most four in five of those cells are empty.
pub proof fn lemma_blocked_segments(cells: Seq<CellState>, n: nat)
    requires
        5 * n <= cells.len(),
        forall|segment: int| 0 <= segment < n ==> #[trigger] segment_blocked(cells, segment),
    ensures
        count_prefix(cells, CellState::Empty, 5 * n) <= 4 * n,
    decreases n,
{
    if n > 0 {
        lemma_blocked_segments(cells, (n - 1) as nat);
        let base = (5 * (n - 1)) as nat;
        assert(segment_blocked(cells, n - 1));
        let k = choose|k: int| base <= k < base + 5 && #[trigger] cells[k] != CellState::Empty;
        assert(count_prefix(cells, CellState::Empty, base + 1) <= count_prefix(
            cells,
            CellState::Empty,
            base,
        ) + 1);
        assert(count_prefix(cells, CellState::Empty, base + 2) <= count_prefix(
            cells,
            CellState::Empty,
            base + 1,
        ) + 1);
        assert(count_prefix(cells, CellState::Empty, base + 3) <= count_prefix(
            cells,
            CellState::Empty,
            base + 2,
        ) + 1);
        assert(count_prefix(cells, CellState::Empty, base + 4) <= count_prefix(
            cells,
            CellState::Empty,
            base + 3,
        ) + 1);
        assert(count_prefix(cells, CellState::Empty, base + 5) <= count_prefix(
            cells,
            CellState::Empty,
            base + 4,
        ) + 1);
        assert(count_prefix(cells, CellState::Empty, base + 5) <= count_prefix(
            cells,
            CellState::Empty,
            base,
        ) + 4);
    }
}

/// A board on which more than eighty cells are empty has room for a ship of
/// up to five cells.
pub proof fn lemma_room_for_ship(cells: Seq<CellState>, length: int)
    requires
        cells.len() == CELL_COUNT,
        0 <= length <= 5,
        count(cells, CellState::Empty) > 80,
    ensures
        exists|row: int, col: int, orientation: Orientation| #[trigger]
            can_place_spec(cells, row, col, length, orientation),
{
    if forall|segment: int| 0 <= segment < 20 ==> #[trigger] segment_blocked(cells, segment) {
        lemma_blocked_segments(cells, 20);
        assert(false);
    } else {
        let segment = choose|segment: int|
            0 <= segment < 20 && !#[trigger] segment_blocked(cells, segment);
        let row = segment / 2;
        let col = 5 * (segment % 2);
        assert forall|i: int| 0 <= i < length implies #[trigger] ship_cell_free(
            cells,
            row,
            col,
            Orientation::Horizontal,
            i,
        ) by {
            assert(cell_index(row, col + i) == 5 * segment + i);
            assert(cells[5 * segment + i] == CellState::Empty);
        }
        assert(can_place_spec(cells, row, col, length, Orientation::Horizontal));
    }
}

} // verus!
