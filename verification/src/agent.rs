//! The players: their marks, the commands they give and the capability that
//! every kind of player offers.

use crate::board::Board;
use vstd::prelude::*;

pub mod ai;
pub mod human;
pub mod random;

verus! {

/// The two players' marks.
#[derive(Clone, Copy, PartialEq, Eq, Debug, Structural)]
pub enum AgentType {
    MARU,
    BATSU,
}

impl AgentType {
    /// The opposing mark.
    pub open spec fn other(self) -> AgentType {
        match self {
            AgentType::MARU => AgentType::BATSU,
            AgentType::BATSU => AgentType::MARU,
        }
    }

    /// The mark that moves after this one.
    pub fn next(&self) -> (r: AgentType)
        ensures
            r == self.other(),
    {
        match self {
            AgentType::MARU => AgentType::BATSU,
            AgentType::BATSU => AgentType::MARU,
        }
    }

    /// The symbol the mark is written with.
    pub fn symbol(&self) -> (c: char)
        ensures
            c == match *self {
                AgentType::MARU => '○',
                AgentType::BATSU => '×',
            },
    {
        match self {
            AgentType::MARU => '○',
            AgentType::BATSU => '×',
        }
    }

    /// The opposing mark differs from the mark, and flipping twice brings the
    /// mark back.
    pub proof fn lemma_other_involution(self)
        ensures
            self.other() != self,
            self.other().other() == self,
    {
    }
}

/// What a player asks the game to do on its turn.
#[derive(Clone, Copy, PartialEq, Eq, Debug, Structural)]
pub enum Command {
    /// Place the player's mark in column `.0` of row `.1`.
    Next(usize, usize),
    /// Take back the last placement.
    Prev,
    /// Show the command summary.
    Help,
    /// End the session.
    Exit,
}

impl Command {
    /// A placement names a cell of the board.
    pub open spec fn in_range(self) -> bool {
        self matches Command::Next(x, y) ==> x < 3 && y < 3
    }
}

/// A source of moves.
pub trait AgentTrait {
    /// The mark the agent plays, fixed when it is made.
    spec fn mark(&self) -> AgentType;

    /// The mark the agent plays.
    fn agent_type(&self) -> (r: AgentType)
        ensures
            r == self.mark(),
    ;

    /// Asks the agent for one command on a board that it may only read. The
    /// board has an empty cell, and a placement that the agent asks for names
    /// a cell of the board.
    fn next(&self, board: &Board) -> (cmd: Command)
        requires
            board@.has_empty(),
        ensures
            cmd.in_range(),
    ;
}

} // verus!
