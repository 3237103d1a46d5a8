use vstd::prelude::*;

use crate::model::{
    board_full, board_solved, complement_of, empty_board, keep_won_lines, Board, CellGrid,
    CellShape,
};

verus! {

/// Milliseconds that a won line stays on screen before the other cells clear.
pub const WIN_PAUSE_MS: u32 = 500;

/// Milliseconds between the clearing steps of a finished round.
pub const CLEAR_PAUSE_MS: u32 = 750;

/// Where the turn sequencer stands. Each phase but `Idle` waits for one
/// timer; the shape it carries plays next.
#[derive(Clone, Copy, Debug, PartialEq, Eq, Structural)]
pub enum Phase {
    /// A player may place a mark.
    Idle,
    /// A line was just won; the cells off won lines clear next.
    Won(CellShape),
    /// Only the won lines remain; the whole grid clears next.
    LineShown(CellShape),
    /// The grid filled up without a won line; it clears next.
    Drawn(CellShape),
    /// The grid is empty; the next player gets the turn next.
    Cleared(CellShape),
}

/// How long the sequencer waits in `p` before it advances.
pub open spec fn phase_delay(p: Phase) -> Option<u32> {
    match p {
        Phase::Idle => None,
        Phase::Won(_) => Some(WIN_PAUSE_MS),
        Phase::LineShown(_) => Some(CLEAR_PAUSE_MS),
        Phase::Drawn(_) => Some(CLEAR_PAUSE_MS),
        Phase::Cleared(_) => Some(CLEAR_PAUSE_MS),
    }
}

/// The phase that follows a placement by `shape` that left the board `b`.
pub open spec fn phase_after_placement(b: Board, n: int, shape: CellShape) -> Phase {
    if board_solved(b, n) {
        Phase::Won(complement_of(shape))
    } else if board_full(b, n) {
        Phase::Drawn(complement_of(shape))
    } else {
        Phase::Idle
    }
}

/// The turn that goes with a phase: the next shape once the sequencer is
/// idle, nobody's while it resolves a round.
pub open spec fn turn_in(p: Phase, next: CellShape) -> Option<CellShape> {
    if p is Idle {
        Some(next)
    } else {
        None
    }
}

/// The phase that follows `p` when its timer fires.
pub open spec fn next_phase(p: Phase) -> Phase {
    match p {
        Phase::Idle => Phase::Idle,
        Phase::Won(s) => Phase::LineShown(s),
        Phase::LineShown(s) => Phase::Cleared(s),
        Phase::Drawn(s) => Phase::Cleared(s),
        Phase::Cleared(_) => Phase::Idle,
    }
}

/// The board after the step that leaves phase `p` on the board `b`.
pub open spec fn board_after_step(p: Phase, b: Board, n: int) -> Board {
    match p {
        Phase::Won(_) => keep_won_lines(b, n),
        Phase::LineShown(_) => empty_board(n as nat),
        Phase::Drawn(_) => empty_board(n as nat),
        _ => b,
    }
}

/// Phase and board after `k` steps from phase `p` on the board `b`.
pub open spec fn run_steps(p: Phase, b: Board, n: int, k: nat) -> (Phase, Board)
    decreases k,
{
    if k == 0 {
        (p, b)
    } else {
        run_steps(next_phase(p), board_after_step(p, b, n), n, (k - 1) as nat)
    }
}

/// A won round hands the turn on after three steps and a drawn one after
/// two; either way the grid ends empty, and the last step before input opens
/// again is the one that gives the turn to `next`.
pub proof fn lemma_round_resolves(next: CellShape, b: Board, n: nat)
    ensures
        run_steps(Phase::Won(next), b, n as int, 2) == (Phase::Cleared(next), empty_board(n)),
        run_steps(Phase::Won(next), b, n as int, 3) == (Phase::Idle, empty_board(n)),
        run_steps(Phase::Drawn(next), b, n as int, 1) == (Phase::Cleared(next), empty_board(n)),
        run_steps(Phase::Drawn(next), b, n as int, 2) == (Phase::Idle, empty_board(n)),
{
    reveal_with_fuel(run_steps, 4);
}

/// A game: the grid, whose turn it is, and the resolution of a round.
#[derive(Clone, Debug, PartialEq, Eq)]
pub struct Game {
    grid: CellGrid,
    turn: Option<CellShape>,
    phase: Phase,
}

impl Game {
    /// The grid.
    pub closed spec fn grid_model(&self) -> CellGrid {
        self.grid
    }

    /// The shape that may place a mark; `None` while a round resolves.
    pub closed spec fn turn_model(&self) -> Option<CellShape> {
        self.turn
    }

    /// The sequencer's phase.
    pub closed spec fn phase_model(&self) -> Phase {
        self.phase
    }

    /// The side of the grid.
    pub open spec fn side(&self) -> int {
        self.grid_model().side()
    }

    /// The marks on the grid.
    pub open spec fn board(&self) -> Board {
        self.grid_model()@
    }

    /// The grid is well formed, input is open exactly when no round is
    /// being resolved, and a round waits in `Won` only on a solved board.
    pub open spec fn wf(&self) -> bool {
        &&& self.grid_model().wf()
        &&& (self.turn_model() is Some <==> self.phase_model() is Idle)
        &&& (self.phase_model() is Won ==> board_solved(self.board(), self.side()))
    }

    /// A game on an empty grid of side `size`, Circle to play; `None` when
    /// `size` is zero.
    pub fn new(size: usize) -> (r: Option<Game>)
        ensures
            r is None <==> size == 0,
            r matches Some(g) ==> {
                &&& g.wf()
                &&& g.side() == size
                &&& g.board() == empty_board(size as nat)
                &&& g.turn_model() == Some(CellShape::Circle)
                &&& g.phase_model() == Phase::Idle
            },
    {
        match CellGrid::new(size) {
            None => None,
            Some(grid) => Some(Game { grid, turn: Some(CellShape::Circle), phase: Phase::Idle }),
        }
    }

    /// The grid.
    pub fn grid(&self) -> (r: &CellGrid)
        ensures
            *r == self.grid_model(),
    {
        &self.grid
    }

    /// The shape that may place a mark; `None` while a round resolves.
    pub fn turn(&self) -> (r: Option<CellShape>)
        ensures
            r == self.turn_model(),
    {
        self.turn
    }

    /// The sequencer's phase.
    pub fn phase(&self) -> (r: Phase)
        ensures
            r == self.phase_model(),
    {
        self.phase
    }

    /// How long to wait before calling `advance`; `None` when nothing is
    /// pending.
    pub fn pending_delay(&self) -> (r: Option<u32>)
        ensures
            r == phase_delay(self.phase_model()),
    {
        match self.phase {
            Phase::Idle => None,
            Phase::Won(_) => Some(WIN_PAUSE_MS),
            _ => Some(CLEAR_PAUSE_MS),
        }
    }

    /// The player whose turn it is places a mark at row `row`, column `col`.
    /// Accepted only when a player has the turn and the cell is empty; a
    /// rejected attempt changes nothing. An accepted one locks input when it
    /// wins a line or fills the grid, and otherwise passes the turn.
    pub fn place(&mut self, row: usize, col: usize) -> (accepted: bool)
        requires
            old(self).wf(),
            row < old(self).side(),
            col < old(self).side(),
        ensures
            final(self).wf(),
            final(self).side() == old(self).side(),
            accepted == (old(self).turn_model() is Some && old(self).board()[row as int][col as int] is None),
            !accepted ==> *final(self) == *old(self),
            accepted ==> ({
                let shape = old(self).turn_model()->0;
                let b = old(self).board().update(
                    row as int,
                    old(self).board()[row as int].update(col as int, Some(shape)),
                );
                let p = phase_after_placement(b, old(self).side(), shape);
                &&& final(self).board() == b
                &&& final(self).phase_model() == p
                &&& final(self).turn_model() == turn_in(p, complement_of(shape))
            }),
    {
        let shape = match self.turn {
            None => return false,
            Some(s) => s,
        };
        if self.grid.get(row, col).is_some() {
            return false;
        }
        self.grid.set(row, col, Some(shape));
        let next = shape.complement();
        if self.grid.is_solved() {
            self.turn = None;
            self.phase = Phase::Won(next);
        } else if self.grid.is_full() {
            self.turn = None;
            self.phase = Phase::Drawn(next);
        } else {
            self.turn = Some(next);
        }
        true
    }

    /// The pending timer fired: performs the phase's step and moves on. Does
    /// nothing when idle.
    pub fn advance(&mut self)
        requires
            old(self).wf(),
        ensures
            final(self).wf(),
            final(self).side() == old(self).side(),
            old(self).phase_model() is Idle ==> *final(self) == *old(self),
            final(self).phase_model() == next_phase(old(self).phase_model()),
            final(self).board() == board_after_step(old(self).phase_model(), old(self).board(), old(self).side()),
            old(self).phase_model() matches Phase::Cleared(next) ==> final(self).turn_model() == Some(next),
            !(old(self).phase_model() is Idle) && !(old(self).phase_model() is Cleared) ==> final(self).turn_model() is None,
    {
        match self.phase {
            Phase::Idle => {},
            Phase::Won(next) => {
                self.grid.clear_non_solved();
                self.phase = Phase::LineShown(next);
            },
            Phase::LineShown(next) => {
                self.grid.clear_all();
                self.phase = Phase::Cleared(next);
            },
            Phase::Drawn(next) => {
                self.grid.clear_all();
                self.phase = Phase::Cleared(next);
            },
            Phase::Cleared(next) => {
                self.turn = Some(next);
                self.phase = Phase::Idle;
            },
        }
    }
}

} // verus!
