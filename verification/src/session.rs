//! The game session: the phase state machine, both boards, the human's
//! pending placement, whose turn it is and how many hits each side has
//! scored.

use vstd::prelude::*;
use crate::board::{
    after_shot, cell_index, cell_lookup, count, fresh_cells, in_bounds, is_fresh, is_resolved,
    lemma_cell_index, lemma_count_prefix_bound, lemma_shot_counts, shot_at_result, shot_result,
    Board, CellState, GameError, ShotResult, CELL_COUNT,
};
use crate::fleet::{
    fleet, fleet_spec, lemma_fleet_total_length, lemma_total_length_remove, total_length,
    ShipType, WIN_CONDITION,
};
use crate::opponent::{
    all_resolved, place_fleet_randomly, places_fleet_in_order, TargetStrategy, UniformRandom,
};
use crate::placement::{
    can_place_spec, lemma_place_count, lemma_placements_count, place, place_all, place_spec,
    placements_legal, Orientation, Placement,
};

verus! {

/// One of the two sides of a game.
#[derive(Copy, Clone, PartialEq, Eq, Structural, Debug)]
pub enum Side {
    /// The human.
    Player,
    /// The scripted opponent.
    Opponent,
}

/// The stage of a playthrough. A session only ever moves forward through
/// these.
#[derive(Copy, Clone, PartialEq, Eq, Structural, Debug)]
pub enum GamePhase {
    StartScreen,
    ShipPlacement,
    Playing,
    /// The game is over and the given side has won.
    Finished(Side),
}

/// The place of a phase in the order in which a session passes through the
/// phases.
pub open spec fn phase_rank(phase: GamePhase) -> nat {
    match phase {
        GamePhase::StartScreen => 0,
        GamePhase::ShipPlacement => 1,
        GamePhase::Playing => 2,
        GamePhase::Finished(_) => 3,
    }
}

/// The state of a session as contracts see it.
pub struct SessionView {
    pub phase: GamePhase,
    /// The human's board, row by row.
    pub player_board: Seq<CellState>,
    /// The opponent's board, row by row.
    pub opponent_board: Seq<CellState>,
    /// The kinds of ship that the human has yet to place.
    pub remaining: Seq<ShipType>,
    /// The kind of ship that the next placement puts, if one is selected.
    pub selected: Option<ShipType>,
    /// The direction of the next placement.
    pub orientation: Orientation,
    /// The side that may fire next.
    pub turn: Side,
    /// Hits that the human has scored on the opponent's board.
    pub player_hits: nat,
    /// Hits that the opponent has scored on the human's board.
    pub opponent_hits: nat,
    /// The placements that the human has made, oldest first.
    pub placements: Seq<Placement>,
}

/// The other direction.
pub open spec fn toggled(orientation: Orientation) -> Orientation {
    match orientation {
        Orientation::Horizontal => Orientation::Vertical,
        Orientation::Vertical => Orientation::Horizontal,
    }
}

/// Whether `i` is the first position at which `ships` holds `kind`.
pub open spec fn is_first_position(ships: Seq<ShipType>, kind: ShipType, i: int) -> bool {
    &&& 0 <= i < ships.len()
    &&& ships[i] == kind
    &&& forall|j: int| 0 <= j < i ==> #[trigger] ships[j] != kind
}

/// The first position at which `ships` holds `kind`, for a list that holds it.
pub open spec fn first_position(ships: Seq<ShipType>, kind: ShipType) -> int {
    choose|i: int| is_first_position(ships, kind, i)
}

/// Whether a cell holds part of a ship, intact or hit.
pub open spec fn is_ship_cell(cell: CellState) -> bool {
    cell == CellState::Occupied || cell == CellState::Hit
}

/// Whether the ships on `cells` are where `placed` has them: a cell holds
/// part of a ship, intact or hit, exactly where `placed` is occupied.
pub open spec fn same_ships(cells: Seq<CellState>, placed: Seq<CellState>) -> bool {
    &&& cells.len() == placed.len()
    &&& forall|k: int|
        0 <= k < cells.len() ==> (is_ship_cell(#[trigger] cells[k]) <==> placed[k]
            == CellState::Occupied)
}

/// Whether a board holds a whole fleet, each of its cells either intact or
/// hit.
pub open spec fn holds_fleet(cells: Seq<CellState>) -> bool {
    count(cells, CellState::Occupied) + count(cells, CellState::Hit) == WIN_CONDITION
}

impl SessionView {
    /// What holds of every session that the engine produces.
    pub open spec fn wf(self) -> bool {
        &&& self.player_board.len() == CELL_COUNT
        &&& self.opponent_board.len() == CELL_COUNT
        &&& self.player_hits == count(self.opponent_board, CellState::Hit)
        &&& self.opponent_hits == count(self.player_board, CellState::Hit)
        &&& self.player_hits <= WIN_CONDITION
        &&& self.opponent_hits <= WIN_CONDITION
        &&& (self.selected matches Some(kind) ==> self.remaining.contains(kind))
        &&& placements_legal(fresh_cells(), self.placements)
        &&& match self.phase {
            GamePhase::StartScreen | GamePhase::ShipPlacement => {
                &&& is_fresh(self.opponent_board)
                &&& self.player_board == place_all(fresh_cells(), self.placements)
                &&& count(self.player_board, CellState::Occupied) + total_length(self.remaining)
                    == WIN_CONDITION
            },
            GamePhase::Playing => {
                &&& same_ships(self.player_board, place_all(fresh_cells(), self.placements))
                &&& holds_fleet(self.player_board)
                &&& holds_fleet(self.opponent_board)
                &&& self.player_hits < WIN_CONDITION
                &&& self.opponent_hits < WIN_CONDITION
            },
            GamePhase::Finished(winner) => {
                &&& same_ships(self.player_board, place_all(fresh_cells(), self.placements))
                &&& holds_fleet(self.player_board)
                &&& holds_fleet(self.opponent_board)
                &&& (winner == Side::Player ==> self.player_hits == WIN_CONDITION)
                &&& (winner == Side::Opponent ==> self.opponent_hits == WIN_CONDITION)
            },
        }
    }

    /// The session at its very beginning.
    pub open spec fn initial() -> SessionView {
        SessionView {
            phase: GamePhase::StartScreen,
            player_board: fresh_cells(),
            opponent_board: fresh_cells(),
            remaining: fleet_spec(),
            selected: None,
            orientation: Orientation::Horizontal,
            turn: Side::Player,
            player_hits: 0,
            opponent_hits: 0,
            placements: Seq::empty(),
        }
    }

    /// The answer to an intent that is allowed in the phase `phase` only.
    pub open spec fn expect_phase(self, phase: GamePhase) -> Result<(), GameError> {
        if self.phase == phase {
            Ok(())
        } else {
            Err(GameError::InvalidIntentForPhase)
        }
    }

    /// The session after a request to start the game.
    pub open spec fn after_start_game(self) -> SessionView {
        if self.phase == GamePhase::StartScreen {
            SessionView { phase: GamePhase::ShipPlacement, ..self }
        } else {
            self
        }
    }

    /// The session after a request to select the kind `kind`: it is selected
    /// if it is still to be placed.
    pub open spec fn after_select_ship(self, kind: ShipType) -> SessionView {
        if self.phase == GamePhase::ShipPlacement && self.remaining.contains(kind) {
            SessionView { selected: Some(kind), ..self }
        } else {
            self
        }
    }

    /// The session after a request to turn the selected ship.
    pub open spec fn after_toggle_orientation(self) -> SessionView {
        if self.phase == GamePhase::ShipPlacement && self.selected is Some {
            SessionView { orientation: toggled(self.orientation), ..self }
        } else {
            self
        }
    }

    /// The answer to a request to put the selected ship at `(row, col)`: the
    /// record of the placement if it is legal, nothing if no ship is
    /// selected.
    pub open spec fn attempt_place_result(self, row: usize, col: usize) -> Result<
        Option<Placement>,
        GameError,
    > {
        if self.phase != GamePhase::ShipPlacement {
            Err(GameError::InvalidIntentForPhase)
        } else {
            match self.selected {
                None => Ok(None),
                Some(kind) => if can_place_spec(
                    self.player_board,
                    row as int,
                    col as int,
                    kind.spec_size() as int,
                    self.orientation,
                ) {
                    Ok(Some(Placement { kind, row, col, orientation: self.orientation }))
                } else {
                    Err(GameError::PlacementRejected)
                },
            }
        }
    }

    /// The session after the placement `p` of the selected ship: the ship is
    /// on the human's board, its kind is no longer to be placed, nothing is
    /// selected and the placement is recorded.
    pub open spec fn after_placement(self, p: Placement) -> SessionView {
        SessionView {
            player_board: place_spec(
                self.player_board,
                p.row as int,
                p.col as int,
                p.kind.spec_size() as int,
                p.orientation,
            ),
            remaining: self.remaining.remove(first_position(self.remaining, p.kind)),
            selected: None,
            placements: self.placements.push(p),
            ..self
        }
    }

    /// The session after a request to put the selected ship at `(row, col)`.
    pub open spec fn after_attempt_place(self, row: usize, col: usize) -> SessionView {
        match self.attempt_place_result(row, col) {
            Ok(Some(p)) => self.after_placement(p),
            _ => self,
        }
    }

    /// The answer to a request to end ship placement: it is granted once
    /// every ship has been placed.
    pub open spec fn confirm_result(self) -> Result<(), GameError> {
        if self.phase == GamePhase::ShipPlacement && self.remaining.len() == 0 {
            Ok(())
        } else {
            Err(GameError::InvalidIntentForPhase)
        }
    }

    /// Whether the human may fire now.
    pub open spec fn player_may_fire(self) -> bool {
        self.phase == GamePhase::Playing && self.turn == Side::Player
    }

    /// Whether the opponent may fire now.
    pub open spec fn opponent_may_fire(self) -> bool {
        self.phase == GamePhase::Playing && self.turn == Side::Opponent
    }

    /// The session after the human, whose turn it is, shot at cell
    /// `(row, col)` of the opponent's board.
    ///
    /// A shot at a resolved cell changes nothing. Any other shot is one turn:
    /// a hit is counted, and either it is the last one, which ends the game,
    /// or the turn passes to the opponent.
    pub open spec fn after_player_shot(self, row: int, col: int) -> SessionView {
        let index = cell_index(row, col);
        let result = shot_result(self.opponent_board[index]);
        let hits = if result == ShotResult::Hit {
            self.player_hits + 1
        } else {
            self.player_hits
        };
        if result == ShotResult::AlreadyResolved {
            self
        } else {
            SessionView {
                opponent_board: after_shot(self.opponent_board, index),
                player_hits: hits,
                phase: if hits == WIN_CONDITION {
                    GamePhase::Finished(Side::Player)
                } else {
                    self.phase
                },
                turn: if hits == WIN_CONDITION {
                    self.turn
                } else {
                    Side::Opponent
                },
                ..self
            }
        }
    }

    /// The session after the opponent, whose turn it is, shot at cell
    /// `(row, col)` of the human's board. The rules are those of the human's
    /// shot.
    pub open spec fn after_opponent_shot(self, row: int, col: int) -> SessionView {
        let index = cell_index(row, col);
        let result = shot_result(self.player_board[index]);
        let hits = if result == ShotResult::Hit {
            self.opponent_hits + 1
        } else {
            self.opponent_hits
        };
        if result == ShotResult::AlreadyResolved {
            self
        } else {
            SessionView {
                player_board: after_shot(self.player_board, index),
                opponent_hits: hits,
                phase: if hits == WIN_CONDITION {
                    GamePhase::Finished(Side::Opponent)
                } else {
                    self.phase
                },
                turn: if hits == WIN_CONDITION {
                    self.turn
                } else {
                    Side::Player
                },
                ..self
            }
        }
    }

    /// The answer to the human's request to fire at `(row, col)`.
    pub open spec fn fire_at_result(self, row: int, col: int) -> Result<ShotResult, GameError> {
        if self.player_may_fire() {
            shot_at_result(self.opponent_board, row, col)
        } else {
            Err(GameError::InvalidIntentForPhase)
        }
    }

    /// The session after the human's request to fire at `(row, col)`.
    pub open spec fn after_fire_at(self, row: int, col: int) -> SessionView {
        if self.player_may_fire() && in_bounds(row, col) {
            self.after_player_shot(row, col)
        } else {
            self
        }
    }

    /// The answer to the opponent's shot at `(row, col)`.
    pub open spec fn opponent_fire_at_result(self, row: int, col: int) -> Result<
        ShotResult,
        GameError,
    > {
        if self.opponent_may_fire() {
            shot_at_result(self.player_board, row, col)
        } else {
            Err(GameError::InvalidIntentForPhase)
        }
    }

    /// The session after the opponent's shot at `(row, col)`.
    pub open spec fn after_opponent_fire_at(self, row: int, col: int) -> SessionView {
        if self.opponent_may_fire() && in_bounds(row, col) {
            self.after_opponent_shot(row, col)
        } else {
            self
        }
    }

    /// Whether `(row, col)` is a cell of the human's board that has not been
    /// shot at.
    pub open spec fn is_open_target(self, row: int, col: int) -> bool {
        in_bounds(row, col) && !is_resolved(self.player_board[cell_index(row, col)])
    }
}

/// One playthrough: the only owner of both boards and of everything else
/// that changes during a game.
pub struct GameSession {
    phase: GamePhase,
    player_board: Board,
    opponent_board: Board,
    remaining: Vec<ShipType>,
    selected: Option<ShipType>,
    orientation: Orientation,
    turn: Side,
    player_hits: usize,
    opponent_hits: usize,
    placements: Vec<Placement>,
}

impl View for GameSession {
    type V = SessionView;

    closed spec fn view(&self) -> SessionView {
        SessionView {
            phase: self.phase,
            player_board: self.player_board@,
            opponent_board: self.opponent_board@,
            remaining: self.remaining@,
            selected: self.selected,
            orientation: self.orientation,
            turn: self.turn,
            player_hits: self.player_hits as nat,
            opponent_hits: self.opponent_hits as nat,
            placements: self.placements@,
        }
    }
}

impl GameSession {
    /// What holds of every session that the engine produces.
    pub open spec fn wf(&self) -> bool {
        self@.wf()
    }

    /// A session on the start screen: two boards of open water, the whole
    /// fleet still to place, nothing selected, and the human to fire first.
    pub fn new() -> (session: GameSession)
        ensures
            session.wf(),
            session@ == SessionView::initial(),
    {
        let session = GameSession {
            phase: GamePhase::StartScreen,
            player_board: Board::new(),
            opponent_board: Board::new(),
            remaining: fleet(),
            selected: None,
            orientation: Orientation::Horizontal,
            turn: Side::Player,
            player_hits: 0,
            opponent_hits: 0,
            placements: Vec::new(),
        };
        proof {
            lemma_initial_wf();
            assert(session@.placements =~= Seq::<Placement>::empty());
        }
        session
    }

    /// Leaves the start screen for ship placement. In any other phase the
    /// answer is `InvalidIntentForPhase`.
    pub fn start_game(&mut self) -> (result: Result<(), GameError>)
        requires
            old(self).wf(),
        ensures
            final(self).wf(),
            phase_rank(old(self)@.phase) <= phase_rank(final(self)@.phase),
            result == old(self)@.expect_phase(GamePhase::StartScreen),
            final(self)@ == old(self)@.after_start_game(),
    {
        match self.phase {
            GamePhase::StartScreen => {
                self.phase = GamePhase::ShipPlacement;
                Ok(())
            },
            _ => Err(GameError::InvalidIntentForPhase),
        }
    }

    /// Answers a request to leave the game. Leaving is possible from the
    /// start screen only; the caller ends the process. The session is not
    /// changed.
    pub fn exit_game(&self) -> (result: Result<(), GameError>)
        ensures
            result == self@.expect_phase(GamePhase::StartScreen),
    {
        match self.phase {
            GamePhase::StartScreen => Ok(()),
            _ => Err(GameError::InvalidIntentForPhase),
        }
    }

    /// Selects the kind of ship that the next placement puts. A kind that is
    /// no longer to be placed is not selected, and nothing changes. Outside
    /// ship placement the answer is `InvalidIntentForPhase`.
    pub fn select_ship(&mut self, kind: ShipType) -> (result: Result<(), GameError>)
        requires
            old(self).wf(),
        ensures
            final(self).wf(),
            phase_rank(old(self)@.phase) <= phase_rank(final(self)@.phase),
            result == old(self)@.expect_phase(GamePhase::ShipPlacement),
            final(self)@ == old(self)@.after_select_ship(kind),
    {
        match self.phase {
            GamePhase::ShipPlacement => {},
            _ => {
                return Err(GameError::InvalidIntentForPhase);
            },
        }
        match find_ship(&self.remaining, kind) {
            Some(_) => {
                self.selected = Some(kind);
            },
            None => {},
        }
        Ok(())
    }

    /// Turns the ship that is selected: the next placement runs in the other
    /// direction. With no ship selected nothing changes. Outside ship
    /// placement the answer is `InvalidIntentForPhase`.
    pub fn toggle_orientation(&mut self) -> (result: Result<(), GameError>)
        requires
            old(self).wf(),
        ensures
            final(self).wf(),
            phase_rank(old(self)@.phase) <= phase_rank(final(self)@.phase),
            result == old(self)@.expect_phase(GamePhase::ShipPlacement),
            final(self)@ == old(self)@.after_toggle_orientation(),
    {
        match self.phase {
            GamePhase::ShipPlacement => {},
            _ => {
                return Err(GameError::InvalidIntentForPhase);
            },
        }
        if self.selected.is_some() {
            self.orientation = match self.orientation {
                Orientation::Horizontal => Orientation::Vertical,
                Orientation::Vertical => Orientation::Horizontal,
            };
        }
        Ok(())
    }

    /// Tries to put the selected ship on the human's board with its origin at
    /// `(row, col)`, in the current direction.
    ///
    /// With no ship selected nothing happens and the answer is `Ok(None)`. A
    /// legal placement is made and recorded, its kind leaves the list of
    /// ships to place and the selection is cleared; the answer is the record.
    /// An illegal one is answered with `PlacementRejected`, and a request
    /// outside ship placement with `InvalidIntentForPhase`.
    pub fn attempt_place(&mut self, row: usize, col: usize) -> (result: Result<
        Option<Placement>,
        GameError,
    >)
        requires
            old(self).wf(),
        ensures
            final(self).wf(),
            phase_rank(old(self)@.phase) <= phase_rank(final(self)@.phase),
            result == old(self)@.attempt_place_result(row, col),
            final(self)@ == old(self)@.after_attempt_place(row, col),
    {
        match self.phase {
            GamePhase::ShipPlacement => {},
            _ => {
                return Err(GameError::InvalidIntentForPhase);
            },
        }
        let kind = match self.selected {
            Some(kind) => kind,
            None => {
                return Ok(None);
            },
        };
        let placed = place(&mut self.player_board, row, col, kind.size(), self.orientation);
        match placed {
            Ok(()) => {},
            Err(_) => {
                return Err(GameError::PlacementRejected);
            },
        }
        let record = Placement { kind, row, col, orientation: self.orientation };
        match find_ship(&self.remaining, kind) {
            Some(i) => {
                self.remaining.remove(i);
            },
            None => {},
        }
        self.selected = None;
        self.placements.push(record);
        proof {
            lemma_after_placement_wf(old(self)@, record);
        }
        Ok(Some(record))
    }

    /// Ends ship placement once the human has placed every ship: the
    /// opponent's fleet is put on its board at random and play begins.
    ///
    /// While ships remain to be placed, or in another phase, the answer is
    /// `InvalidIntentForPhase`.
    pub fn confirm_placements_done(&mut self) -> (result: Result<(), GameError>)
        requires
            old(self).wf(),
        ensures
            final(self).wf(),
            phase_rank(old(self)@.phase) <= phase_rank(final(self)@.phase),
            result == old(self)@.confirm_result(),
            result is Err ==> final(self)@ == old(self)@,
            result is Ok ==> exists|placements: Seq<Placement>|
                places_fleet_in_order(placements) && #[trigger] placements_legal(
                    fresh_cells(),
                    placements,
                ) && final(self)@ == (SessionView {
                    phase: GamePhase::Playing,
                    opponent_board: place_all(fresh_cells(), placements),
                    ..old(self)@
                }),
            result is Ok ==> count(final(self)@.opponent_board, CellState::Occupied)
                == WIN_CONDITION && count(final(self)@.player_board, CellState::Occupied)
                == WIN_CONDITION,
    {
        match self.phase {
            GamePhase::ShipPlacement => {},
            _ => {
                return Err(GameError::InvalidIntentForPhase);
            },
        }
        if self.remaining.len() != 0 {
            return Err(GameError::InvalidIntentForPhase);
        }
        proof {
            assert(self@.opponent_board =~= fresh_cells());
            assert(total_length(self@.remaining) == 0);
            lemma_placements_count(fresh_cells(), self@.placements);
            lemma_count_prefix_bound(fresh_cells(), CellState::Hit, fresh_cells().len());
            lemma_count_prefix_bound(
                self@.player_board,
                CellState::Hit,
                self@.player_board.len(),
            );
        }
        place_fleet_randomly(&mut self.opponent_board);
        self.phase = GamePhase::Playing;
        Ok(())
    }

    /// The human fires at cell `(row, col)` of the opponent's board.
    ///
    /// Outside the human's turn the answer is `InvalidIntentForPhase`, and
    /// for a cell outside the grid `OutOfBounds`. A shot at a cell that was
    /// shot before is reported as `AlreadyResolved` and costs no turn.
    pub fn fire_at(&mut self, row: usize, col: usize) -> (result: Result<ShotResult, GameError>)
        requires
            old(self).wf(),
        ensures
            final(self).wf(),
            phase_rank(old(self)@.phase) <= phase_rank(final(self)@.phase),
            result == old(self)@.fire_at_result(row as int, col as int),
            final(self)@ == old(self)@.after_fire_at(row as int, col as int),
    {
        match (self.phase, self.turn) {
            (GamePhase::Playing, Side::Player) => {},
            _ => {
                return Err(GameError::InvalidIntentForPhase);
            },
        }
        let shot = self.opponent_board.apply_shot(row, col);
        let result = match shot {
            Ok(result) => result,
            Err(e) => {
                return Err(e);
            },
        };
        proof {
            lemma_cell_index(row as int, col as int);
            lemma_shot_counts(old(self)@.opponent_board, cell_index(row as int, col as int));
            lemma_after_player_shot_wf(old(self)@, row as int, col as int);
        }
        match result {
            ShotResult::AlreadyResolved => {},
            ShotResult::Miss => {
                self.turn = Side::Opponent;
            },
            ShotResult::Hit => {
                self.player_hits = self.player_hits + 1;
                if self.player_hits == WIN_CONDITION {
                    self.phase = GamePhase::Finished(Side::Player);
                } else {
                    self.turn = Side::Opponent;
                }
            },
        }
        Ok(result)
    }

    /// The opponent fires at cell `(row, col)` of the human's board. The
    /// rules are those of the human's shot, with the sides exchanged.
    pub fn opponent_fire_at(&mut self, row: usize, col: usize) -> (result: Result<
        ShotResult,
        GameError,
    >)
        requires
            old(self).wf(),
        ensures
            final(self).wf(),
            phase_rank(old(self)@.phase) <= phase_rank(final(self)@.phase),
            result == old(self)@.opponent_fire_at_result(row as int, col as int),
            final(self)@ == old(self)@.after_opponent_fire_at(row as int, col as int),
    {
        match (self.phase, self.turn) {
            (GamePhase::Playing, Side::Opponent) => {},
            _ => {
                return Err(GameError::InvalidIntentForPhase);
            },
        }
        let shot = self.player_board.apply_shot(row, col);
        let result = match shot {
            Ok(result) => result,
            Err(e) => {
                return Err(e);
            },
        };
        proof {
            lemma_cell_index(row as int, col as int);
            lemma_shot_counts(old(self)@.player_board, cell_index(row as int, col as int));
            lemma_after_opponent_shot_wf(old(self)@, row as int, col as int);
        }
        match result {
            ShotResult::AlreadyResolved => {},
            ShotResult::Miss => {
                self.turn = Side::Player;
            },
            ShotResult::Hit => {
                self.opponent_hits = self.opponent_hits + 1;
                if self.opponent_hits == WIN_CONDITION {
                    self.phase = GamePhase::Finished(Side::Opponent);
                } else {
                    self.turn = Side::Player;
                }
            },
        }
        Ok(result)
    }

    /// The opponent takes its turn with the target that `strategy` picks on
    /// the human's board.
    ///
    /// Outside the opponent's turn the answer is `InvalidIntentForPhase` and
    /// nothing changes. Otherwise the strategy's target is a cell that was
    /// not shot before, so the shot is a hit or a miss and the turn is used:
    /// the session is as after the opponent's shot at that cell.
    pub fn opponent_turn_with<S: TargetStrategy>(&mut self, strategy: &mut S) -> (result: Result<
        ShotResult,
        GameError,
    >)
        requires
            old(self).wf(),
        ensures
            final(self).wf(),
            phase_rank(old(self)@.phase) <= phase_rank(final(self)@.phase),
            !old(self)@.opponent_may_fire() ==> final(self)@ == old(self)@,
            !old(self)@.opponent_may_fire() ==> result matches Err(
                GameError::InvalidIntentForPhase,
            ),
            old(self)@.opponent_may_fire() ==> exists|row: int, col: int| #[trigger]
                old(self)@.is_open_target(row, col)
                    && result == old(self)@.opponent_fire_at_result(row, col)
                    && final(self)@ == old(self)@.after_opponent_fire_at(row, col),
    {
        match (self.phase, self.turn) {
            (GamePhase::Playing, Side::Opponent) => {},
            _ => {
                return Err(GameError::InvalidIntentForPhase);
            },
        }
        match strategy.choose_target(&self.player_board) {
            Some((row, col)) => {
                assert(self@.is_open_target(row as int, col as int));
                self.opponent_fire_at(row, col)
            },
            None => {
                // While the game is on, the human's board has a ship's cell
                // that was not hit, so a strategy always finds a target.
                proof {
                    lemma_playing_has_target(self@);
                }
                assert(false);
                Err(GameError::InvalidIntentForPhase)
            },
        }
    }

    /// The opponent takes its turn with a target drawn at random from the
    /// cells of the human's board that were not shot before.
    pub fn opponent_turn(&mut self) -> (result: Result<ShotResult, GameError>)
        requires
            old(self).wf(),
        ensures
            final(self).wf(),
            phase_rank(old(self)@.phase) <= phase_rank(final(self)@.phase),
            !old(self)@.opponent_may_fire() ==> final(self)@ == old(self)@,
            !old(self)@.opponent_may_fire() ==> result matches Err(
                GameError::InvalidIntentForPhase,
            ),
            old(self)@.opponent_may_fire() ==> exists|row: int, col: int| #[trigger]
                old(self)@.is_open_target(row, col)
                    && result == old(self)@.opponent_fire_at_result(row, col)
                    && final(self)@ == old(self)@.after_opponent_fire_at(row, col),
    {
        let mut strategy = UniformRandom;
        self.opponent_turn_with(&mut strategy)
    }

    /// The current phase.
    pub fn current_phase(&self) -> (phase: GamePhase)
        ensures
            phase == self@.phase,
    {
        self.phase
    }

    /// The state of cell `(row, col)` on the board of `side`, or
    /// `OutOfBounds` for a coordinate outside the grid.
    pub fn cell_state(&self, side: Side, row: usize, col: usize) -> (result: Result<
        CellState,
        GameError,
    >)
        requires
            self.wf(),
        ensures
            result == cell_lookup(
                match side {
                    Side::Player => self@.player_board,
                    Side::Opponent => self@.opponent_board,
                },
                row as int,
                col as int,
            ),
    {
        match side {
            Side::Player => self.player_board.get(row, col),
            Side::Opponent => self.opponent_board.get(row, col),
        }
    }

    /// The board of `side`.
    pub fn board(&self, side: Side) -> (board: &Board)
        requires
            self.wf(),
        ensures
            board.wf(),
            board@ == match side {
                Side::Player => self@.player_board,
                Side::Opponent => self@.opponent_board,
            },
    {
        match side {
            Side::Player => &self.player_board,
            Side::Opponent => &self.opponent_board,
        }
    }

    /// The kinds of ship that the human has yet to place, in catalog order.
    pub fn remaining_ships(&self) -> (ships: &Vec<ShipType>)
        ensures
            ships@ == self@.remaining,
    {
        &self.remaining
    }

    /// The kind of ship that the next placement puts, if one is selected.
    pub fn selected_ship(&self) -> (selected: Option<ShipType>)
        ensures
            selected == self@.selected,
    {
        self.selected
    }

    /// The direction of the next placement.
    pub fn current_orientation(&self) -> (orientation: Orientation)
        ensures
            orientation == self@.orientation,
    {
        self.orientation
    }

    /// The side that may fire next.
    pub fn turn_owner(&self) -> (side: Side)
        ensures
            side == self@.turn,
    {
        self.turn
    }

    /// The hits scored so far: first the human's, then the opponent's.
    pub fn hit_counts(&self) -> (hits: (usize, usize))
        ensures
            hits.0 == self@.player_hits,
            hits.1 == self@.opponent_hits,
    {
        (self.player_hits, self.opponent_hits)
    }

    /// The side that has won, once the game is over.
    pub fn winner(&self) -> (winner: Option<Side>)
        ensures
            winner == match self@.phase {
                GamePhase::Finished(side) => Some(side),
                _ => None,
            },
    {
        match self.phase {
            GamePhase::Finished(side) => Some(side),
            _ => None,
        }
    }

    /// The placements that the human has made, oldest first.
    pub fn placements(&self) -> (placements: &Vec<Placement>)
        ensures
            placements@ == self@.placements,
    {
        &self.placements
    }
}

/// Looks for the first position at which `ships` holds `kind`.
pub fn find_ship(ships: &Vec<ShipType>, kind: ShipType) -> (found: Option<usize>)
    ensures
        found matches Some(i) ==> is_first_position(ships@, kind, i as int) && i
            == first_position(ships@, kind),
        found is None <==> !ships@.contains(kind),
{
    let mut i: usize = 0;
    while i < ships.len()
        invariant
            i <= ships@.len(),
            forall|j: int| 0 <= j < i ==> #[trigger] ships@[j] != kind,
        decreases ships@.len() - i,
    {
        if ships[i] == kind {
            proof {
                lemma_first_position(ships@, kind, i as int);
            }
            return Some(i);
        }
        i += 1;
    }
    None
}

/// A list holds a kind at no more than one first position.
pub proof fn lemma_first_position(ships: Seq<ShipType>, kind: ShipType, i: int)
    requires
        is_first_position(ships, kind, i),
    ensures
        first_position(ships, kind) == i,
        ships.contains(kind),
{
    let other = first_position(ships, kind);
    assert(is_first_position(ships, kind, other));
    if other < i {
        assert(ships[other] != kind);
    }
    if i < other {
        assert(ships[i] != kind);
    }
}

/// The session at its very beginning is well formed.
pub proof fn lemma_initial_wf()
    ensures
        SessionView::initial().wf(),
{
    let cells = fresh_cells();
    lemma_count_prefix_bound(cells, CellState::Hit, cells.len());
    lemma_count_prefix_bound(cells, CellState::Occupied, cells.len());
    lemma_fleet_total_length();
}

/// A legal placement of the selected ship keeps the session well formed.
pub proof fn lemma_after_placement_wf(s: SessionView, p: Placement)
    requires
        s.wf(),
        s.phase == GamePhase::ShipPlacement,
        s.selected == Some(p.kind),
        p.orientation == s.orientation,
        can_place_spec(
            s.player_board,
            p.row as int,
            p.col as int,
            p.kind.spec_size() as int,
            p.orientation,
        ),
    ensures
        s.after_placement(p).wf(),
{
    let t = s.after_placement(p);
    let i = choose|i: int| 0 <= i < s.remaining.len() && s.remaining[i] == p.kind;
    lemma_a_first_position_exists(s.remaining, p.kind, i);
    let first = first_position(s.remaining, p.kind);
    lemma_total_length_remove(s.remaining, first);
    lemma_place_count(
        s.player_board,
        p.row as int,
        p.col as int,
        p.kind.spec_size() as int,
        p.orientation,
    );
    assert(t.placements.drop_last() =~= s.placements);
}

/// A list that holds a kind holds it at a first position.
pub proof fn lemma_a_first_position_exists(ships: Seq<ShipType>, kind: ShipType, i: int)
    requires
        0 <= i < ships.len(),
        ships[i] == kind,
    ensures
        is_first_position(ships, kind, first_position(ships, kind)),
    decreases i,
{
    if exists|j: int| 0 <= j < i && ships[j] == kind {
        let j = choose|j: int| 0 <= j < i && ships[j] == kind;
        lemma_a_first_position_exists(ships, kind, j);
    } else {
        assert(is_first_position(ships, kind, i));
    }
}

/// A shot by the human, whose turn it is, keeps the session well formed.
pub proof fn lemma_after_player_shot_wf(s: SessionView, row: int, col: int)
    requires
        s.wf(),
        s.player_may_fire(),
        in_bounds(row, col),
    ensures
        s.after_player_shot(row, col).wf(),
{
    lemma_cell_index(row, col);
    lemma_shot_counts(s.opponent_board, cell_index(row, col));
}

/// A shot by the opponent, whose turn it is, keeps the session well formed.
pub proof fn lemma_after_opponent_shot_wf(s: SessionView, row: int, col: int)
    requires
        s.wf(),
        s.opponent_may_fire(),
        in_bounds(row, col),
    ensures
        s.after_opponent_shot(row, col).wf(),
{
    lemma_cell_index(row, col);
    lemma_shot_counts(s.player_board, cell_index(row, col));
}

/// While the game is being played, each board has a cell that was not shot.
pub proof fn lemma_playing_has_target(s: SessionView)
    requires
        s.wf(),
        s.phase == GamePhase::Playing,
    ensures
        !all_resolved(s.player_board),
        !all_resolved(s.opponent_board),
{
    lemma_count_prefix_bound(s.player_board, CellState::Occupied, s.player_board.len());
    lemma_count_prefix_bound(s.opponent_board, CellState::Occupied, s.opponent_board.len());
    let k = choose|k: int|
        0 <= k < s.player_board.len() && s.player_board[k] == CellState::Occupied;
    assert(!is_resolved(s.player_board[k]));
    let m = choose|m: int|
        0 <= m < s.opponent_board.len() && s.opponent_board[m] == CellState::Occupied;
    assert(!is_resolved(s.opponent_board[m]));
}

/// Turns alternate: a shot by the human that hits or misses passes the turn
/// to the opponent, and the opponent's shot at a cell that was not shot
/// before passes it back. The one exception is a shot that ends the game:
/// the game is then over and nobody has the turn.
pub proof fn lemma_turns_alternate(s: SessionView, row: int, col: int, row2: int, col2: int)
    requires
        s.wf(),
        s.player_may_fire(),
        in_bounds(row, col),
        !is_resolved(s.opponent_board[cell_index(row, col)]),
        s.is_open_target(row2, col2),
    ensures
        s.after_fire_at(row, col).phase == GamePhase::Playing ==> s.after_fire_at(
            row,
            col,
        ).opponent_may_fire(),
        s.after_fire_at(row, col).after_opponent_fire_at(row2, col2).phase == GamePhase::Playing
            ==> s.after_fire_at(row, col).after_opponent_fire_at(row2, col2).player_may_fire(),
        s.after_fire_at(row, col).phase != GamePhase::Playing ==> s.after_fire_at(row, col).phase
            == GamePhase::Finished(Side::Player) && s.after_fire_at(row, col).player_hits
            == WIN_CONDITION,
{
}

/// The hit that brings a side's count to seventeen ends the game in that
/// side's favour, and from then on neither side may fire.
pub proof fn lemma_last_hit_wins(s: SessionView, row: int, col: int)
    requires
        s.wf(),
        s.phase == GamePhase::Playing,
        in_bounds(row, col),
    ensures
        s.opponent_board[cell_index(row, col)] == CellState::Occupied && s.player_hits + 1
            == WIN_CONDITION ==> s.after_player_shot(row, col).phase == GamePhase::Finished(
            Side::Player,
        ) && !s.after_player_shot(row, col).player_may_fire() && !s.after_player_shot(
            row,
            col,
        ).opponent_may_fire(),
        s.player_board[cell_index(row, col)] == CellState::Occupied && s.opponent_hits + 1
            == WIN_CONDITION ==> s.after_opponent_shot(row, col).phase == GamePhase::Finished(
            Side::Opponent,
        ) && !s.after_opponent_shot(row, col).player_may_fire() && !s.after_opponent_shot(
            row,
            col,
        ).opponent_may_fire(),
        s.after_player_shot(row, col).phase is Finished ==> s.after_player_shot(
            row,
            col,
        ).player_hits == WIN_CONDITION,
        s.after_opponent_shot(row, col).phase is Finished ==> s.after_opponent_shot(
            row,
            col,
        ).opponent_hits == WIN_CONDITION,
{
}

/// Once the game is over, every request is answered with
/// `InvalidIntentForPhase` and changes nothing.
pub proof fn lemma_finished_rejects_every_intent(
    s: SessionView,
    kind: ShipType,
    row: usize,
    col: usize,
)
    requires
        s.phase is Finished,
    ensures
        s.expect_phase(GamePhase::StartScreen) matches Err(GameError::InvalidIntentForPhase),
        s.expect_phase(GamePhase::ShipPlacement) matches Err(GameError::InvalidIntentForPhase),
        s.attempt_place_result(row, col) matches Err(GameError::InvalidIntentForPhase),
        s.confirm_result() matches Err(GameError::InvalidIntentForPhase),
        s.fire_at_result(row as int, col as int) matches Err(GameError::InvalidIntentForPhase),
        s.opponent_fire_at_result(row as int, col as int) matches Err(
            GameError::InvalidIntentForPhase,
        ),
        s.after_start_game() == s,
        s.after_select_ship(kind) == s,
        s.after_toggle_orientation() == s,
        s.after_attempt_place(row, col) == s,
        s.after_fire_at(row as int, col as int) == s,
        s.after_opponent_fire_at(row as int, col as int) == s,
{
}

/// When the game is over, the loser's fleet is destroyed: no cell of the
/// loser's board holds an intact part of a ship.
pub proof fn lemma_winner_sank_the_fleet(s: SessionView)
    requires
        s.wf(),
        s.phase is Finished,
    ensures
        s.phase == GamePhase::Finished(Side::Player) ==> count(
            s.opponent_board,
            CellState::Occupied,
        ) == 0 && count(s.opponent_board, CellState::Hit) == WIN_CONDITION,
        s.phase == GamePhase::Finished(Side::Opponent) ==> count(
            s.player_board,
            CellState::Occupied,
        ) == 0 && count(s.player_board, CellState::Hit) == WIN_CONDITION,
{
}

/// A request to fire that is repeated changes nothing the second time: the
/// boards and both hit counts stay as the first request left them, and the
/// second answer is neither a hit nor a miss.
pub proof fn lemma_repeated_shot_is_free(s: SessionView, row: int, col: int)
    requires
        s.wf(),
    ensures
        s.after_fire_at(row, col).after_fire_at(row, col) == s.after_fire_at(row, col),
        !(s.after_fire_at(row, col).fire_at_result(row, col) matches Ok(ShotResult::Hit)),
        !(s.after_fire_at(row, col).fire_at_result(row, col) matches Ok(ShotResult::Miss)),
        s.after_opponent_fire_at(row, col).after_opponent_fire_at(row, col)
            == s.after_opponent_fire_at(row, col),
        !(s.after_opponent_fire_at(row, col).opponent_fire_at_result(row, col) matches Ok(
            ShotResult::Hit,
        )),
        !(s.after_opponent_fire_at(row, col).opponent_fire_at_result(row, col) matches Ok(
            ShotResult::Miss,
        )),
{
    if in_bounds(row, col) {
        lemma_cell_index(row, col);
    }
}

} // verus!
