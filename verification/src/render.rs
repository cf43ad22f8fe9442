//! The board as text.
//!
//! ```text
//!   012x
//!  +---+ +---+
//! 0|o  | |2  |
//! 1| X | | 3 |
//! 2|  x| |  0|
//! y+---+ +---+
//! ```
//!
//! The left frame shows who holds each cell, the right frame how old each mark
//! is. A faded mark is written in upper case and its age is the decay
//! threshold.

use crate::agent::AgentType;
use crate::board::Board;
use crate::board::Grid;
use crate::cell::CellState;
use vstd::prelude::*;

verus! {

/// The sign that tells who holds a cell.
pub open spec fn owner_sign(cell: CellState) -> Seq<char> {
    match cell {
        CellState::Empty => " "@,
        CellState::Occupied(AgentType::MARU, _) => "o"@,
        CellState::Occupied(AgentType::BATSU, _) => "x"@,
        CellState::Faded(AgentType::MARU) => "O"@,
        CellState::Faded(AgentType::BATSU) => "X"@,
    }
}

/// The sign that tells how old the mark on a cell is.
pub open spec fn age_sign(cell: CellState) -> Seq<char> {
    match cell {
        CellState::Empty => " "@,
        CellState::Occupied(_, age) => if age == 0 {
            "0"@
        } else if age == 1 {
            "1"@
        } else {
            "2"@
        },
        CellState::Faded(_) => "3"@,
    }
}

/// The label of row `y`.
pub open spec fn row_label(y: int) -> Seq<char> {
    if y == 0 {
        "0"@
    } else if y == 1 {
        "1"@
    } else {
        "2"@
    }
}

/// The line of text for row `y`.
pub open spec fn row_text(grid: Grid, y: int) -> Seq<char> {
    row_label(y) + "|"@ + owner_sign(grid.cell(0, y)) + owner_sign(grid.cell(1, y)) + owner_sign(
        grid.cell(2, y),
    ) + "| |"@ + age_sign(grid.cell(0, y)) + age_sign(grid.cell(1, y)) + age_sign(
        grid.cell(2, y),
    ) + "|\n"@
}

/// The text of the whole board.
pub open spec fn board_text(grid: Grid) -> Seq<char> {
    "  012x\n"@ + " +---+ +---+\n"@ + row_text(grid, 0) + row_text(grid, 1) + row_text(grid, 2)
        + "y+---+ +---+\n"@
}

/// The sign that tells who holds `cell`.
fn owner_str(cell: CellState) -> (r: &'static str)
    ensures
        r@ == owner_sign(cell),
{
    match cell {
        CellState::Empty => " ",
        CellState::Occupied(AgentType::MARU, _) => "o",
        CellState::Occupied(AgentType::BATSU, _) => "x",
        CellState::Faded(AgentType::MARU) => "O",
        CellState::Faded(AgentType::BATSU) => "X",
    }
}

/// The sign that tells how old the mark on `cell` is.
fn age_str(cell: CellState) -> (r: &'static str)
    requires
        cell.wf(),
    ensures
        r@ == age_sign(cell),
{
    match cell {
        CellState::Empty => " ",
        CellState::Occupied(_, age) => if age == 0 {
            "0"
        } else if age == 1 {
            "1"
        } else {
            "2"
        },
        CellState::Faded(_) => "3",
    }
}

impl Board {
    /// Draws row `y`: its label, the marks in their frame, the ages in
    /// theirs.
    pub fn render_row(&self, y: usize) -> (r: String)
        requires
            y < 3,
        ensures
            r@ == row_text(self@, y as int),
    {
        let label = if y == 0 {
            "0"
        } else if y == 1 {
            "1"
        } else {
            "2"
        };
        let a = self.get(0, y);
        let b = self.get(1, y);
        let c = self.get(2, y);
        let mut row = String::from_str(label);
        row.append("|");
        row.append(owner_str(a));
        row.append(owner_str(b));
        row.append(owner_str(c));
        row.append("| |");
        row.append(age_str(a));
        row.append(age_str(b));
        row.append(age_str(c));
        row.append("|\n");
        row
    }

    /// Draws the board: a frame with the marks beside a frame with their
    /// ages, under a header that numbers the columns.
    pub fn render(&self) -> (r: String)
        ensures
            r@ == board_text(self@),
    {
        let mut out = String::from_str("  012x\n");
        out.append(" +---+ +---+\n");
        out.append(self.render_row(0).as_str());
        out.append(self.render_row(1).as_str());
        out.append(self.render_row(2).as_str());
        out.append("y+---+ +---+\n");
        out
    }
}

} // verus!
