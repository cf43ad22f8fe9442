//! The decay state machine of a single board position.

use crate::agent::AgentType;
use vstd::prelude::*;

verus! {

/// Number of its owner's turns after which an occupied cell fades.
pub const DECAY_THRESHOLD: u8 = 3;

/// State of one board position.
///
/// `Empty → Occupied(owner, 0) → … → Occupied(owner, DECAY_THRESHOLD - 1) →
/// Faded(owner) → Empty`.
#[derive(Clone, Copy, PartialEq, Eq, Debug, Structural)]
pub enum CellState {
    /// Nothing is placed here.
    Empty,
    /// A live mark of `owner` that has aged `age` times.
    Occupied(AgentType, u8),
    /// A mark of `owner` that has outlived its lifetime. It no longer counts
    /// toward a line and is cleared by the next aging pass.
    Faded(AgentType),
}

impl CellState {
    /// The age of a live mark stays below the decay threshold.
    pub open spec fn wf(self) -> bool {
        self matches CellState::Occupied(_, age) ==> age < DECAY_THRESHOLD
    }

    /// Whether the cell holds a live mark of `mark`.
    pub open spec fn owned_by(self, mark: AgentType) -> bool {
        self matches CellState::Occupied(owner, _) && owner == mark
    }

    /// The cell after one aging pass made on `current`'s turn.
    ///
    /// A live mark of `current` ages by one and fades when its age reaches the
    /// threshold. Everything else, a live mark of the other player included,
    /// becomes `Empty`.
    pub open spec fn advanced(self, current: AgentType) -> CellState {
        match self {
            CellState::Occupied(owner, age) if owner == current => {
                if age + 1 >= DECAY_THRESHOLD {
                    CellState::Faded(owner)
                } else {
                    CellState::Occupied(owner, (age + 1) as u8)
                }
            },
            _ => CellState::Empty,
        }
    }

    /// The cell after `n` aging passes, all made on `current`'s turn.
    pub open spec fn advanced_by(self, current: AgentType, n: nat) -> CellState
        decreases n,
    {
        if n == 0 {
            self
        } else {
            self.advanced(current).advanced_by(current, (n - 1) as nat)
        }
    }

    /// A cell with nothing placed on it.
    pub fn new() -> (r: CellState)
        ensures
            r == CellState::Empty,
    {
        CellState::Empty
    }

    /// Puts a fresh mark of `owner` on an empty cell.
    pub fn place(&mut self, owner: AgentType)
        requires
            *old(self) == CellState::Empty,
        ensures
            *final(self) == CellState::Occupied(owner, 0),
    {
        *self = CellState::Occupied(owner, 0);
    }

    /// One aging pass, made when the turn passes to `current_agent`.
    pub fn update(&mut self, current_agent: AgentType)
        ensures
            *final(self) == old(self).advanced(current_agent),
            final(self).wf(),
    {
        match *self {
            CellState::Occupied(owner, age) => {
                if owner == current_agent {
                    if age >= DECAY_THRESHOLD - 1 {
                        *self = CellState::Faded(owner);
                    } else {
                        *self = CellState::Occupied(owner, age + 1);
                    }
                } else {
                    *self = CellState::Empty;
                }
            },
            _ => {
                *self = CellState::Empty;
            },
        }
    }

    /// Whether the cell holds a live mark of `mark`.
    pub fn belongs_to(&self, mark: AgentType) -> (r: bool)
        ensures
            r == self.owned_by(mark),
    {
        match *self {
            CellState::Occupied(owner, _) => owner == mark,
            _ => false,
        }
    }

    /// Whether the cell holds a live `MARU`.
    pub fn is_valid_maru(&self) -> (r: bool)
        ensures
            r == self.owned_by(AgentType::MARU),
    {
        match *self {
            CellState::Occupied(AgentType::MARU, _) => true,
            _ => false,
        }
    }

    /// Whether the cell holds a live `BATSU`.
    pub fn is_valid_batsu(&self) -> (r: bool)
        ensures
            r == self.owned_by(AgentType::BATSU),
    {
        match *self {
            CellState::Occupied(AgentType::BATSU, _) => true,
            _ => false,
        }
    }

    /// A fresh mark stays live through `DECAY_THRESHOLD - 1` of its owner's
    /// aging passes, has faded after `DECAY_THRESHOLD` of them and is empty
    /// after one more.
    pub proof fn lemma_decay_cycle(owner: AgentType, n: nat)
        ensures
            n < DECAY_THRESHOLD ==> CellState::Occupied(owner, 0).advanced_by(owner, n)
                == CellState::Occupied(owner, n as u8),
            n == DECAY_THRESHOLD ==> CellState::Occupied(owner, 0).advanced_by(owner, n)
                == CellState::Faded(owner),
            n > DECAY_THRESHOLD ==> CellState::Occupied(owner, 0).advanced_by(owner, n)
                == CellState::Empty,
    {
        reveal_with_fuel(CellState::advanced_by, 5);
        if n > 4 {
            Self::lemma_empty_stays_empty(owner, (n - 4) as nat);
            Self::lemma_advanced_by_split(CellState::Occupied(owner, 0), owner, 4, (n - 4) as nat);
        }
    }

    /// An aging pass made on the turn of anyone but a cell's owner clears the
    /// cell, whatever it held.
    pub proof fn lemma_foreign_advance_clears(cell: CellState, current: AgentType)
        requires
            !cell.owned_by(current),
        ensures
            cell.advanced(current) == CellState::Empty,
    {
    }

    /// A faded cell is cleared by the next aging pass, whoever's turn it is.
    pub proof fn lemma_faded_clears(owner: AgentType, current: AgentType)
        ensures
            CellState::Faded(owner).advanced(current) == CellState::Empty,
    {
    }

    /// Aging never leaves a live mark at or beyond the threshold.
    pub proof fn lemma_advanced_wf(cell: CellState, current: AgentType)
        ensures
            cell.advanced(current).wf(),
    {
    }

    proof fn lemma_empty_stays_empty(current: AgentType, n: nat)
        ensures
            CellState::Empty.advanced_by(current, n) == CellState::Empty,
        decreases n,
    {
        if n > 0 {
            Self::lemma_empty_stays_empty(current, (n - 1) as nat);
        }
    }

    proof fn lemma_advanced_by_split(cell: CellState, current: AgentType, a: nat, b: nat)
        ensures
            cell.advanced_by(current, a + b) == cell.advanced_by(current, a).advanced_by(
                current,
                b,
            ),
        decreases a,
    {
        if a > 0 {
            Self::lemma_advanced_by_split(cell.advanced(current), current, (a - 1) as nat, b);
        }
    }
}

} // verus!
