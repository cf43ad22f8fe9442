//! The player that picks an empty cell by chance.

use crate::agent::AgentTrait;
use crate::agent::AgentType;
use crate::agent::Command;
use crate::board::Board;
use crate::board::Grid;
use crate::cell::CellState;
use vstd::prelude::*;

verus! {

/// Draws after which sampling stops and the first empty cell is taken.
///
/// Each draw misses with a chance of at most 8 in 9, so only a generator that
/// is broken reaches the limit.
pub const SAMPLE_LIMIT: usize = 1_000_000;

/// The placement that a pair of draws stands for, if its cell is empty: the
/// first draw gives the column, the second the row, both modulo 3.
pub open spec fn sampled(board: Grid, a: usize, b: usize) -> Option<Command> {
    if board.cell((a % 3) as int, (b % 3) as int) == CellState::Empty {
        Some(Command::Next(a % 3, b % 3))
    } else {
        None
    }
}

/// Draws a `usize` with `rand::random`, which takes it from the generator of
/// the running thread. Nothing is claimed of the value: two calls may differ.
/// The call panics if that generator cannot be seeded by the operating
/// system.
#[verifier::external_body]
pub(crate) fn random_usize() -> usize {
    rand::random::<usize>()
}

/// Turns a pair of draws into a placement, if the cell they name is empty.
pub fn candidate(board: &Board, a: usize, b: usize) -> (r: Option<Command>)
    ensures
        r == sampled(board@, a, b),
{
    let x = a % 3;
    let y = b % 3;
    if board.get(x, y) == CellState::Empty {
        Some(Command::Next(x, y))
    } else {
        None
    }
}

/// Picks an empty cell: draws pairs until one names an empty cell, and takes
/// the first empty cell in row-major order should `SAMPLE_LIMIT` pairs in a
/// row miss.
pub fn sample_empty_cell(board: &Board) -> (cmd: Command)
    requires
        board@.has_empty(),
    ensures
        cmd matches Command::Next(x, y) && x < 3 && y < 3 && board@.cell(x as int, y as int)
            == CellState::Empty,
{
    let mut misses: usize = 0;
    while misses < SAMPLE_LIMIT
        invariant
            misses <= SAMPLE_LIMIT,
        decreases SAMPLE_LIMIT - misses,
    {
        let a = random_usize();
        let b = random_usize();
        match candidate(board, a, b) {
            Some(cmd) => {
                return cmd;
            },
            None => {
                misses += 1;
            },
        }
    }
    let (x, y) = board.first_empty().unwrap();
    Command::Next(x, y)
}

/// A player that places its mark on an empty cell chosen by chance.
pub struct RandomAgent {
    agent_type: AgentType,
}

impl RandomAgent {
    /// An agent that plays `agent_type`.
    pub fn new(agent_type: AgentType) -> (r: Self)
        ensures
            r.mark() == agent_type,
    {
        Self { agent_type }
    }
}

impl AgentTrait for RandomAgent {
    closed spec fn mark(&self) -> AgentType {
        self.agent_type
    }

    fn agent_type(&self) -> (r: AgentType) {
        self.agent_type
    }

    /// Asks for a placement on an empty cell, whatever was drawn.
    fn next(&self, board: &Board) -> (cmd: Command)
        ensures
            cmd matches Command::Next(x, y) && board@.cell(x as int, y as int)
                == CellState::Empty,
    {
        sample_empty_cell(board)
    }
}

} // verus!
