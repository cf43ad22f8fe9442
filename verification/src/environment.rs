//! The turn protocol: who moves, what a command does to the game, and the
//! history that undo draws on.

use crate::agent::AgentTrait;
use crate::agent::AgentType;
use crate::agent::Command;
use crate::board::Board;
use crate::board::Grid;
use crate::cell::CellState;
use vstd::prelude::*;

verus! {

/// Room that a new game reserves for saved boards: the number of cells of
/// the board. A game that runs longer saves more.
pub const HISTORY_SIZE: usize = 9;

/// What a turn did.
#[derive(Clone, Copy, PartialEq, Eq, Debug, Structural)]
pub enum TurnOutcome {
    /// A mark was placed and the turn passed to the other player.
    Placed,
    /// The last placement was taken back and the turn passed back.
    Undone,
    /// The player asked for the command summary. Nothing changed.
    ShowHelp,
    /// The player asked to end the session. Nothing changed.
    Quit,
}

/// Why a turn changed nothing. The same player is asked again.
#[derive(Clone, Copy, PartialEq, Eq, Debug, Structural)]
pub enum TurnError {
    /// The cell chosen for a placement is not empty.
    CellOccupied,
    /// There is no placement to take back.
    NoHistory,
}

impl TurnError {
    /// What the player is told.
    pub open spec fn text(self) -> Seq<char> {
        match self {
            TurnError::CellOccupied => "すでに置かれています"@,
            TurnError::NoHistory => "初期状態です"@,
        }
    }

    /// What the player is told.
    pub fn message(&self) -> (r: &'static str)
        ensures
            r@ == self.text(),
    {
        match self {
            TurnError::CellOccupied => "すでに置かれています",
            TurnError::NoHistory => "初期状態です",
        }
    }
}

/// Mathematical model of a game in progress.
#[verifier::ext_equal]
pub struct GameState {
    /// The board as it stands.
    pub board: Grid,
    /// The mark whose turn it is.
    pub current: AgentType,
    /// The boards as they stood before each placement not yet taken back,
    /// oldest first.
    pub history: Seq<Grid>,
}

impl GameState {
    /// The start of a game in which `first` moves first.
    pub open spec fn initial(first: AgentType) -> GameState {
        GameState { board: Grid::empty(), current: first, history: Seq::empty() }
    }

    /// The board and every snapshot are well formed and have an empty cell.
    pub open spec fn wf(self) -> bool {
        &&& self.board.wf()
        &&& self.board.has_empty()
        &&& forall|i: int|
            0 <= i < self.history.len() ==> {
                &&& (#[trigger] self.history[i]).wf()
                &&& self.history[i].has_empty()
            }
    }

    /// The game after the player to move gives `cmd`, and what the turn
    /// reports.
    ///
    /// A placement on an empty cell saves the board, places the mark, passes
    /// the turn and ages the board for the player who now moves. Undo brings
    /// back the last saved board and passes the turn back. A placement on a
    /// cell that is not empty, and undo with nothing saved, fail and change
    /// nothing; help and quit succeed and change nothing.
    pub open spec fn step(self, cmd: Command) -> (GameState, Result<TurnOutcome, TurnError>) {
        match cmd {
            Command::Next(x, y) => {
                if self.board.cell(x as int, y as int) != CellState::Empty {
                    (self, Err(TurnError::CellOccupied))
                } else {
                    (
                        GameState {
                            board: self.board.placed(x as int, y as int, self.current).ticked(
                                self.current.other(),
                            ),
                            current: self.current.other(),
                            history: self.history.push(self.board),
                        },
                        Ok(TurnOutcome::Placed),
                    )
                }
            },
            Command::Prev => {
                if self.history.len() == 0 {
                    (self, Err(TurnError::NoHistory))
                } else {
                    (
                        GameState {
                            board: self.history.last(),
                            current: self.current.other(),
                            history: self.history.drop_last(),
                        },
                        Ok(TurnOutcome::Undone),
                    )
                }
            },
            Command::Help => (self, Ok(TurnOutcome::ShowHelp)),
            Command::Exit => (self, Ok(TurnOutcome::Quit)),
        }
    }

    /// The mark that has won, if the game is over.
    pub open spec fn winner(self) -> Option<AgentType> {
        self.board.winner()
    }

    /// Every turn keeps the game well formed: whatever the command, the
    /// board that results has an empty cell for the next player to choose.
    pub proof fn lemma_step_wf(self, cmd: Command)
        requires
            self.wf(),
            cmd.in_range(),
        ensures
            self.step(cmd).0.wf(),
    {
        let after = self.step(cmd).0;
        match cmd {
            Command::Next(x, y) => {
                if self.board.cell(x as int, y as int) == CellState::Empty {
                    let placed = self.board.placed(x as int, y as int, self.current);
                    placed.lemma_ticked(self.current.other());
                    self.board.lemma_placed_then_ticked(x as int, y as int, self.current);
                    assert forall|i: int| 0 <= i < after.history.len() implies {
                        &&& (#[trigger] after.history[i]).wf()
                        &&& after.history[i].has_empty()
                    } by {
                        if i < self.history.len() {
                            assert(after.history[i] == self.history[i]);
                        }
                    }
                }
            },
            Command::Prev => {
                if self.history.len() > 0 {
                    assert(self.history.last() == self.history[self.history.len() - 1]);
                    assert forall|i: int| 0 <= i < after.history.len() implies {
                        &&& (#[trigger] after.history[i]).wf()
                        &&& after.history[i].has_empty()
                    } by {
                        assert(after.history[i] == self.history[i]);
                    }
                }
            },
            _ => {},
        }
    }

    /// After a placement the player who placed holds no live mark: the aging
    /// pass made for the other player clears every one of them, the mark just
    /// placed included.
    pub proof fn lemma_mover_keeps_no_mark(self, x: usize, y: usize)
        requires
            self.board.shaped(),
            x < 3,
            y < 3,
            self.board.cell(x as int, y as int) == CellState::Empty,
        ensures
            ({
                let after = self.step(Command::Next(x, y)).0.board;
                forall|a: int, b: int|
                    0 <= a < 3 && 0 <= b < 3 ==> !(#[trigger] after.cell(a, b)).owned_by(
                        self.current,
                    )
            }),
    {
        let placed = self.board.placed(x as int, y as int, self.current);
        placed.lemma_ticked(self.current.other());
    }

    /// A placement on a cell that is not empty fails with `CellOccupied` and
    /// changes nothing.
    pub proof fn lemma_occupied_rejected(self, x: usize, y: usize)
        requires
            self.board.cell(x as int, y as int) != CellState::Empty,
        ensures
            self.step(Command::Next(x, y)) == (self, Err::<TurnOutcome, TurnError>(
                TurnError::CellOccupied,
            )),
    {
    }

    /// Undo right after a placement brings back the game as it was before
    /// the placement: the board, the player to move and the history.
    pub proof fn lemma_undo_restores(self, x: usize, y: usize)
        requires
            self.board.cell(x as int, y as int) == CellState::Empty,
        ensures
            self.step(Command::Next(x, y)).1 == Ok::<TurnOutcome, TurnError>(TurnOutcome::Placed),
            self.step(Command::Next(x, y)).0.step(Command::Prev) == (self, Ok::<
                TurnOutcome,
                TurnError,
            >(TurnOutcome::Undone)),
    {
        let placed = self.step(Command::Next(x, y)).0;
        let undone = placed.step(Command::Prev).0;
        assert(placed.history.last() == self.board);
        assert(placed.history.drop_last() =~= self.history);
        assert(undone =~= self);
    }

    /// Undo with no placement to take back fails with `NoHistory` and
    /// changes nothing.
    pub proof fn lemma_undo_needs_history(self)
        requires
            self.history.len() == 0,
        ensures
            self.step(Command::Prev) == (self, Err::<TurnOutcome, TurnError>(
                TurnError::NoHistory,
            )),
    {
    }
}

/// Places a mark of `mark` in column `x` of row `y` if that cell is empty, and
/// refuses without touching the board if it is not.
pub fn place_if_empty(board: &mut Board, x: usize, y: usize, mark: AgentType) -> (r: Result<
    (),
    TurnError,
>)
    requires
        x < 3,
        y < 3,
    ensures
        old(board)@.cell(x as int, y as int) != CellState::Empty ==> r == Err::<(), TurnError>(
            TurnError::CellOccupied,
        ) && *final(board) == *old(board),
        old(board)@.cell(x as int, y as int) == CellState::Empty ==> r == Ok::<(), TurnError>(())
            && final(board)@ == old(board)@.placed(x as int, y as int, mark),
{
    if board.get(x, y) != CellState::Empty {
        return Err(TurnError::CellOccupied);
    }
    board.put(x, y, mark);
    Ok(())
}

/// A game: the board, the two players, whose turn it is and the boards saved
/// for undo.
pub struct Environment<A: AgentTrait, B: AgentTrait> {
    board: Board,
    first: A,
    second: B,
    current_agent_index: usize,
    history: Vec<Board>,
}

/// The grids that a sequence of boards stands for.
spec fn grids(boards: Seq<Board>) -> Seq<Grid> {
    Seq::new(boards.len(), |i: int| boards[i]@)
}

impl<A: AgentTrait, B: AgentTrait> View for Environment<A, B> {
    type V = GameState;

    closed spec fn view(&self) -> GameState {
        GameState {
            board: self.board@,
            current: if self.current_agent_index == 0 {
                self.first.mark()
            } else {
                self.second.mark()
            },
            history: grids(self.history@),
        }
    }
}

impl<A: AgentTrait, B: AgentTrait> Environment<A, B> {
    #[verifier::type_invariant]
    closed spec fn inv(self) -> bool {
        &&& self.current_agent_index < 2
        &&& self.first.mark() != self.second.mark()
        &&& self@.wf()
    }

    /// Starts a game between two agents that play different marks. The first
    /// agent moves first.
    pub fn new(agent1: A, agent2: B) -> (r: Self)
        requires
            agent1.mark() != agent2.mark(),
        ensures
            r@ == GameState::initial(agent1.mark()),
            r@.wf(),
    {
        let board = Board::new();
        let history: Vec<Board> = Vec::with_capacity(HISTORY_SIZE);
        proof {
            assert(board@.cell(0, 0) == CellState::Empty);
            assert(grids(history@) =~= Seq::<Grid>::empty());
        }
        Environment { board, first: agent1, second: agent2, current_agent_index: 0, history }
    }

    /// Moves the saved boards out and leaves none behind: no update of the
    /// history in place can then be cut short halfway.
    fn take_history(&mut self) -> (history: Vec<Board>)
        ensures
            history == old(self).history,
            final(self).history@.len() == 0,
            final(self).board == old(self).board,
            final(self).first == old(self).first,
            final(self).second == old(self).second,
            final(self).current_agent_index == old(self).current_agent_index,
    {
        proof {
            use_type_invariant(&*self);
        }
        let mut history: Vec<Board> = Vec::new();
        std::mem::swap(&mut history, &mut self.history);
        history
    }

    /// Carries out `cmd` for the player to move.
    pub fn apply(&mut self, cmd: Command) -> (r: Result<TurnOutcome, TurnError>)
        requires
            cmd.in_range(),
        ensures
            (final(self)@, r) == old(self)@.step(cmd),
            final(self)@.wf(),
    {
        proof {
            use_type_invariant(&*self);
            old(self)@.lemma_step_wf(cmd);
        }
        match cmd {
            Command::Next(x, y) => {
                let mark = self.current_agent_type();
                let mut board = self.board;
                match place_if_empty(&mut board, x, y, mark) {
                    Err(e) => {
                        return Err(e);
                    },
                    Ok(()) => {},
                }
                board.update(mark.next());
                let mut history = self.take_history();
                history.push(self.board);
                proof {
                    assert(grids(history@) =~= grids(old(self).history@).push(self.board@));
                }
                self.history = history;
                self.current_agent_index = 1 - self.current_agent_index;
                self.board = board;
                Ok(TurnOutcome::Placed)
            },
            Command::Prev => {
                if self.history.len() == 0 {
                    return Err(TurnError::NoHistory);
                }
                let mut history = self.take_history();
                let board = history.pop().unwrap();
                proof {
                    assert(board@ == grids(old(self).history@).last());
                    assert(grids(history@) =~= grids(old(self).history@).drop_last());
                }
                self.history = history;
                self.board = board;
                self.current_agent_index = 1 - self.current_agent_index;
                Ok(TurnOutcome::Undone)
            },
            Command::Help => Ok(TurnOutcome::ShowHelp),
            Command::Exit => Ok(TurnOutcome::Quit),
        }
    }

    /// Asks the player to move for a command and carries it out.
    ///
    /// Which command comes back is the player's choice; the turn is
    /// [`GameState::step`] of it.
    pub fn next(&mut self) -> (r: Result<TurnOutcome, TurnError>)
        ensures
            exists|cmd: Command|
                cmd.in_range() && #[trigger] old(self)@.step(cmd) == (final(self)@, r),
            final(self)@.wf(),
    {
        proof {
            use_type_invariant(&*self);
        }
        let cmd = if self.current_agent_index == 0 {
            self.first.next(&self.board)
        } else {
            self.second.next(&self.board)
        };
        self.apply(cmd)
    }

    /// Whether a mark holds a complete line.
    pub fn is_done(&self) -> (r: bool)
        ensures
            r == (self@.winner() is Some),
    {
        self.board.winner().is_some()
    }

    /// The mark that has won.
    pub fn winner(&self) -> (r: AgentType)
        requires
            self@.winner() is Some,
        ensures
            self@.winner() == Some(r),
    {
        self.board.winner().unwrap()
    }

    /// The mark whose turn it is.
    pub fn current_agent_type(&self) -> (r: AgentType)
        ensures
            r == self@.current,
    {
        if self.current_agent_index == 0 {
            self.first.agent_type()
        } else {
            self.second.agent_type()
        }
    }

    /// The board as it stands.
    pub fn board(&self) -> (r: &Board)
        ensures
            r@ == self@.board,
    {
        &self.board
    }

    /// The number of placements that undo can take back.
    pub fn history_len(&self) -> (r: usize)
        ensures
            r == self@.history.len(),
    {
        self.history.len()
    }
}

} // verus!
