//! The 3×3 board: placement, the aging pass and win detection.

use crate::agent::AgentType;
use crate::cell::CellState;
use vstd::prelude::*;

verus! {

/// Number of columns, and of rows, of the board.
pub const SIZE: usize = 3;

/// Number of lines that win: three rows, three columns, two diagonals.
pub const LINES: usize = 8;

/// Mathematical model of a board: `cells[y][x]` is the cell in column `x` of
/// row `y`.
#[verifier::ext_equal]
pub struct Grid {
    pub cells: Seq<Seq<CellState>>,
}

/// Column and row of the `i`-th cell of line `k`.
///
/// Lines are numbered in the order in which they are scanned for a winner:
/// rows 0 to 2 from the top, then columns 0 to 2 from the left, then the
/// diagonal from (0, 0) and the diagonal from (0, 2).
pub open spec fn line_cell(k: int, i: int) -> (int, int) {
    if k < 3 {
        (i, k)
    } else if k < 6 {
        (k - 3, i)
    } else if k == 6 {
        (i, i)
    } else {
        (i, 2 - i)
    }
}

impl Grid {
    /// Three rows of three cells.
    pub open spec fn shaped(self) -> bool {
        &&& self.cells.len() == 3
        &&& forall|y: int| 0 <= y < 3 ==> (#[trigger] self.cells[y]).len() == 3
    }

    /// Three rows of three cells, each with its age in range.
    pub open spec fn wf(self) -> bool {
        &&& self.shaped()
        &&& forall|x: int, y: int| 0 <= x < 3 && 0 <= y < 3 ==> (#[trigger] self.cell(x, y)).wf()
    }

    /// The cell in column `x` of row `y`.
    pub open spec fn cell(self, x: int, y: int) -> CellState {
        self.cells[y][x]
    }

    /// The board with nothing on it.
    pub open spec fn empty() -> Grid {
        Grid { cells: Seq::new(3, |y: int| Seq::new(3, |x: int| CellState::Empty)) }
    }

    /// The board after `mark` is placed in column `x` of row `y`.
    pub open spec fn placed(self, x: int, y: int, mark: AgentType) -> Grid {
        Grid { cells: self.cells.update(y, self.cells[y].update(x, CellState::Occupied(mark, 0))) }
    }

    /// The board after an aging pass on `current`'s turn: every cell is
    /// advanced on its own.
    pub open spec fn ticked(self, current: AgentType) -> Grid {
        Grid {
            cells: Seq::new(3, |y: int| Seq::new(3, |x: int| self.cell(x, y).advanced(current))),
        }
    }

    /// Whether some cell is empty.
    pub open spec fn has_empty(self) -> bool {
        exists|x: int, y: int| 0 <= x < 3 && 0 <= y < 3 && #[trigger] self.cell(x, y)
            == CellState::Empty
    }

    /// Whether all three cells of line `k` hold live marks of `mark`.
    pub open spec fn line_owned_by(self, k: int, mark: AgentType) -> bool {
        &&& self.cell(line_cell(k, 0).0, line_cell(k, 0).1).owned_by(mark)
        &&& self.cell(line_cell(k, 1).0, line_cell(k, 1).1).owned_by(mark)
        &&& self.cell(line_cell(k, 2).0, line_cell(k, 2).1).owned_by(mark)
    }

    /// Whether `mark` holds some row, column or diagonal.
    pub open spec fn has_line(self, mark: AgentType) -> bool {
        exists|k: int| 0 <= k < 8 && #[trigger] self.line_owned_by(k, mark)
    }

    /// The owner of the first complete line among lines `k`, `k + 1`, … in
    /// scan order.
    pub open spec fn winner_from(self, k: int) -> Option<AgentType>
        decreases 8 - k,
    {
        if k < 0 || k >= 8 {
            None
        } else if self.line_owned_by(k, AgentType::MARU) {
            Some(AgentType::MARU)
        } else if self.line_owned_by(k, AgentType::BATSU) {
            Some(AgentType::BATSU)
        } else {
            self.winner_from(k + 1)
        }
    }

    /// The owner of the first complete line in scan order, if any line is
    /// complete.
    pub open spec fn winner(self) -> Option<AgentType> {
        self.winner_from(0)
    }
}

impl Grid {
    /// A cell read right after a mark was placed on it holds that mark at age
    /// 0, and no other cell has changed.
    pub proof fn lemma_placed(self, x: int, y: int, mark: AgentType)
        requires
            self.shaped(),
            0 <= x < 3,
            0 <= y < 3,
            self.cell(x, y) == CellState::Empty,
        ensures
            self.placed(x, y, mark).shaped(),
            self.placed(x, y, mark).cell(x, y) == CellState::Occupied(mark, 0),
            forall|a: int, b: int|
                0 <= a < 3 && 0 <= b < 3 && !(a == x && b == y) ==> #[trigger] self.placed(
                    x,
                    y,
                    mark,
                ).cell(a, b) == self.cell(a, b),
            self.wf() ==> self.placed(x, y, mark).wf(),
    {
        let after = self.placed(x, y, mark);
        assert forall|a: int, b: int|
            0 <= a < 3 && 0 <= b < 3 && !(a == x && b == y) implies #[trigger] after.cell(a, b)
            == self.cell(a, b) by {}
        if self.wf() {
            assert forall|a: int, b: int| 0 <= a < 3 && 0 <= b < 3 implies (#[trigger] after.cell(
                a,
                b,
            )).wf() by {
                if !(a == x && b == y) {
                    assert(after.cell(a, b) == self.cell(a, b));
                }
            }
        }
    }

    /// An aging pass advances each cell on its own and leaves every age in
    /// range.
    pub proof fn lemma_ticked(self, current: AgentType)
        ensures
            self.ticked(current).wf(),
            forall|x: int, y: int|
                0 <= x < 3 && 0 <= y < 3 ==> #[trigger] self.ticked(current).cell(x, y)
                    == self.cell(x, y).advanced(current),
    {
        let after = self.ticked(current);
        assert forall|x: int, y: int| 0 <= x < 3 && 0 <= y < 3 implies (#[trigger] after.cell(
            x,
            y,
        )).wf() by {
            CellState::lemma_advanced_wf(self.cell(x, y), current);
        }
    }

    /// A mark placed by one player is cleared by the aging pass made on the
    /// other player's turn, so the cell is empty again after the pass.
    pub proof fn lemma_placed_then_ticked(self, x: int, y: int, mark: AgentType)
        requires
            self.shaped(),
            0 <= x < 3,
            0 <= y < 3,
        ensures
            self.placed(x, y, mark).ticked(mark.other()).cell(x, y) == CellState::Empty,
            self.placed(x, y, mark).ticked(mark.other()).has_empty(),
    {
    }

    /// No line is held by both marks at once.
    pub proof fn lemma_line_has_one_owner(self, k: int)
        ensures
            !(self.line_owned_by(k, AgentType::MARU) && self.line_owned_by(k, AgentType::BATSU)),
    {
    }

    /// A line with a cell that holds no live mark, such as a faded one, is
    /// held by nobody.
    pub proof fn lemma_dead_cell_blocks_line(self, k: int, i: int, mark: AgentType)
        requires
            0 <= i < 3,
            !(self.cell(line_cell(k, i).0, line_cell(k, i).1) is Occupied),
        ensures
            !self.line_owned_by(k, mark),
    {
    }

    /// The winner holds a complete line; there is no winner exactly when
    /// neither mark holds one; and a mark that alone holds a complete line is
    /// the winner.
    pub proof fn lemma_winner_holds_line(self, mark: AgentType)
        ensures
            self.winner() == Some(mark) ==> self.has_line(mark),
            self.winner() is None <==> !self.has_line(AgentType::MARU) && !self.has_line(
                AgentType::BATSU,
            ),
            self.has_line(mark) && !self.has_line(mark.other()) ==> self.winner() == Some(mark),
    {
        reveal_with_fuel(Grid::winner_from, 9);
        if self.winner() is None {
            assert forall|k: int| 0 <= k < 8 implies !self.line_owned_by(k, AgentType::MARU)
                && !self.line_owned_by(k, AgentType::BATSU) by {}
        }
    }

    /// Where both marks hold a complete line, the winner is the owner of the
    /// one that comes first in scan order.
    pub proof fn lemma_winner_is_first_line(self, k: int, mark: AgentType)
        requires
            0 <= k < 8,
            self.line_owned_by(k, mark),
            forall|j: int|
                0 <= j < k ==> !self.line_owned_by(j, AgentType::MARU) && !self.line_owned_by(
                    j,
                    AgentType::BATSU,
                ),
        ensures
            self.winner() == Some(mark),
    {
        reveal_with_fuel(Grid::winner_from, 9);
    }
}

/// The 3×3 board.
#[derive(Clone, Copy, PartialEq, Eq, Debug)]
pub struct Board {
    cells: [[CellState; 3]; 3],
}

/// The grid that an array of rows stands for.
spec fn grid_of(cells: [[CellState; 3]; 3]) -> Grid {
    Grid { cells: Seq::new(3, |y: int| Seq::new(3, |x: int| cells[y][x])) }
}

impl View for Board {
    type V = Grid;

    closed spec fn view(&self) -> Grid {
        grid_of(self.cells)
    }
}

/// Column and row of the `i`-th cell of line `k`.
pub fn line_coords(k: usize, i: usize) -> (r: (usize, usize))
    requires
        k < LINES,
        i < SIZE,
    ensures
        r.0 < SIZE,
        r.1 < SIZE,
        (r.0 as int, r.1 as int) == line_cell(k as int, i as int),
{
    if k < 3 {
        (i, k)
    } else if k < 6 {
        (k - 3, i)
    } else if k == 6 {
        (i, i)
    } else {
        (i, 2 - i)
    }
}

impl Board {
    /// Every board that runs has its ages in range.
    #[verifier::type_invariant]
    pub open spec fn inv(self) -> bool {
        self@.wf()
    }

    /// A board is three rows of three cells.
    pub proof fn lemma_shaped(self)
        ensures
            self@.shaped(),
    {
    }

    /// Boards that show the same grid are the same board.
    pub proof fn lemma_same_grid_same_board(self, other: Board)
        requires
            self@ == other@,
        ensures
            self == other,
    {
        assert forall|y: int| 0 <= y < 3 implies self.cells[y] == other.cells[y] by {
            assert forall|x: int| 0 <= x < 3 implies self.cells[y][x] == other.cells[y][x] by {
                assert(self@.cell(x, y) == self.cells[y][x]);
                assert(other@.cell(x, y) == other.cells[y][x]);
            }
            assert(self.cells[y] =~= other.cells[y]);
        }
        assert(self.cells =~= other.cells);
    }

    /// The board with nothing on it.
    pub fn new() -> (r: Board)
        ensures
            r@ == Grid::empty(),
    {
        let cells = [[CellState::new(); 3]; 3];
        assert(grid_of(cells) =~~= Grid::empty());
        Board { cells }
    }

    /// Reads the cell in column `x` of row `y`.
    pub fn get(&self, x: usize, y: usize) -> (r: CellState)
        requires
            x < SIZE,
            y < SIZE,
        ensures
            r == self@.cell(x as int, y as int),
            r.wf(),
    {
        proof {
            use_type_invariant(self);
            assert(self@.cell(x as int, y as int).wf());
        }
        self.cells[y][x]
    }

    /// Places a fresh mark of `agent` on the empty cell in column `x` of row
    /// `y`.
    pub fn put(&mut self, x: usize, y: usize, agent: AgentType)
        requires
            x < SIZE,
            y < SIZE,
            old(self)@.cell(x as int, y as int) == CellState::Empty,
        ensures
            final(self)@ == old(self)@.placed(x as int, y as int, agent),
    {
        proof {
            use_type_invariant(&*self);
        }
        let mut cells = self.cells;
        let mut cell = cells[y][x];
        cell.place(agent);
        cells[y][x] = cell;
        proof {
            let before = old(self)@;
            let after = before.placed(x as int, y as int, agent);
            assert(grid_of(cells) =~~= after);
            assert forall|a: int, b: int| 0 <= a < 3 && 0 <= b < 3 implies (#[trigger] after.cell(
                a,
                b,
            )).wf() by {
                if !(a == x && b == y) {
                    assert(after.cell(a, b) == before.cell(a, b));
                }
            }
        }
        self.cells = cells;
    }

    /// The aging pass made when the turn passes to `current_agent`: every one
    /// of the nine cells is advanced, none depending on another.
    pub fn update(&mut self, current_agent: AgentType)
        ensures
            final(self)@ == old(self)@.ticked(current_agent),
    {
        let ghost before = self@;
        let mut cells = self.cells;
        let mut y: usize = 0;
        while y < SIZE
            invariant
                y <= SIZE,
                before == grid_of(self.cells),
                forall|a: int, b: int|
                    0 <= a < 3 && 0 <= b < y ==> #[trigger] cells[b][a] == before.cell(
                        a,
                        b,
                    ).advanced(current_agent),
                forall|a: int, b: int|
                    0 <= a < 3 && y <= b < 3 ==> #[trigger] cells[b][a] == before.cell(a, b),
            decreases SIZE - y,
        {
            let mut x: usize = 0;
            while x < SIZE
                invariant
                    y < SIZE,
                    x <= SIZE,
                    before == grid_of(self.cells),
                    forall|a: int, b: int|
                        0 <= a < 3 && 0 <= b < y ==> #[trigger] cells[b][a] == before.cell(
                            a,
                            b,
                        ).advanced(current_agent),
                    forall|a: int|
                        0 <= a < x ==> #[trigger] cells[y as int][a] == before.cell(
                            a,
                            y as int,
                        ).advanced(current_agent),
                    forall|a: int| x <= a < 3 ==> #[trigger] cells[y as int][a] == before.cell(
                        a,
                        y as int,
                    ),
                    forall|a: int, b: int|
                        0 <= a < 3 && y < b < 3 ==> #[trigger] cells[b][a] == before.cell(a, b),
                decreases SIZE - x,
            {
                let mut cell = cells[y][x];
                cell.update(current_agent);
                cells[y][x] = cell;
                x += 1;
            }
            y += 1;
        }
        proof {
            let after = before.ticked(current_agent);
            assert(grid_of(cells) =~~= after);
            assert forall|a: int, b: int| 0 <= a < 3 && 0 <= b < 3 implies (#[trigger] after.cell(
                a,
                b,
            )).wf() by {
                CellState::lemma_advanced_wf(before.cell(a, b), current_agent);
            }
        }
        self.cells = cells;
    }

    /// Whether all three cells of line `k` hold live marks of `mark`.
    pub fn line_held_by(&self, k: usize, mark: AgentType) -> (r: bool)
        requires
            k < LINES,
        ensures
            r == self@.line_owned_by(k as int, mark),
    {
        let (x0, y0) = line_coords(k, 0);
        let (x1, y1) = line_coords(k, 1);
        let (x2, y2) = line_coords(k, 2);
        self.get(x0, y0).belongs_to(mark) && self.get(x1, y1).belongs_to(mark) && self.get(
            x2,
            y2,
        ).belongs_to(mark)
    }

    /// The mark that holds a complete line, if there is one.
    ///
    /// Lines are scanned rows first, then columns, then diagonals, and the
    /// owner of the first complete one is returned. A faded cell completes no
    /// line.
    pub fn winner(&self) -> (r: Option<AgentType>)
        ensures
            r == self@.winner(),
    {
        let mut k: usize = 0;
        while k < LINES
            invariant
                k <= LINES,
                self@.winner() == self@.winner_from(k as int),
            decreases LINES - k,
        {
            if self.line_held_by(k, AgentType::MARU) {
                return Some(AgentType::MARU);
            }
            if self.line_held_by(k, AgentType::BATSU) {
                return Some(AgentType::BATSU);
            }
            k += 1;
        }
        None
    }

    /// The first empty cell in row-major order, as (column, row).
    pub fn first_empty(&self) -> (r: Option<(usize, usize)>)
        ensures
            r is None <==> !self@.has_empty(),
            r matches Some((x, y)) ==> {
                &&& x < SIZE
                &&& y < SIZE
                &&& self@.cell(x as int, y as int) == CellState::Empty
                &&& forall|a: int, b: int|
                    0 <= a < 3 && 0 <= b < 3 && (b < y || (b == y && a < x))
                        ==> #[trigger] self@.cell(a, b) != CellState::Empty
            },
    {
        let mut y: usize = 0;
        while y < SIZE
            invariant
                y <= SIZE,
                forall|a: int, b: int|
                    0 <= a < 3 && 0 <= b < y ==> #[trigger] self@.cell(a, b) != CellState::Empty,
            decreases SIZE - y,
        {
            let mut x: usize = 0;
            while x < SIZE
                invariant
                    y < SIZE,
                    x <= SIZE,
                    forall|a: int, b: int|
                        0 <= a < 3 && 0 <= b < y ==> #[trigger] self@.cell(a, b)
                            != CellState::Empty,
                    forall|a: int|
                        0 <= a < x ==> #[trigger] self@.cell(a, y as int) != CellState::Empty,
                decreases SIZE - x,
            {
                if self.get(x, y) == CellState::Empty {
                    return Some((x, y));
                }
                x += 1;
            }
            y += 1;
        }
        None
    }
}

} // verus!
