//! The computer player. It has no strategy yet and moves as the random
//! player does.

use crate::agent::random::sample_empty_cell;
use crate::agent::AgentTrait;
use crate::agent::AgentType;
use crate::agent::Command;
use crate::board::Board;
use crate::cell::CellState;
use vstd::prelude::*;

verus! {

/// A player meant to search for its move; for now it picks an empty cell by
/// chance.
pub struct AIAgent {
    agent_type: AgentType,
}

impl AIAgent {
    /// An agent that plays `agent_type`.
    pub fn new(agent_type: AgentType) -> (r: Self)
        ensures
            r.mark() == agent_type,
    {
        Self { agent_type }
    }
}

impl AgentTrait for AIAgent {
    closed spec fn mark(&self) -> AgentType {
        self.agent_type
    }

    fn agent_type(&self) -> (r: AgentType) {
        self.agent_type
    }

    /// Asks for a placement on an empty cell, whatever was drawn.
    fn next(&self, board: &Board) -> (cmd: Command)
        ensures
            cmd matches Command::Next(x, y) && board@.cell(x as int, y as int)
                == CellState::Empty,
    {
        sample_empty_cell(board)
    }
}

} // verus!
