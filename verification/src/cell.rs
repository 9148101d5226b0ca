//! The cell kinds a grid is made of, and the single error the grid surfaces.

use vstd::prelude::*;

verus! {

/// One cell of the grid. Exactly one cell of a well-formed universe is
/// `Start` and exactly one is `End`; the rest are `Ground` or `Wall`.
#[derive(Clone, Copy, Debug, PartialEq, Eq, Structural)]
pub enum Cell {
    Ground,
    Wall,
    Start,
    End,
}

/// Error surfaced when a caller addresses a cell outside the grid extent.
#[derive(Clone, Copy, Debug, PartialEq, Eq, Structural)]
pub enum GridError {
    IndexOutOfBounds,
}

/// What `Cell::toggle` turns a cell into: walls and ground flip, the special
/// cells are left alone.
pub open spec fn toggled(c: Cell) -> Cell {
    match c {
        Cell::Ground => Cell::Wall,
        Cell::Wall => Cell::Ground,
        other => other,
    }
}

impl Cell {
    /// Flips `Ground` to `Wall` and back; a no-op on `Start` and `End`.
    pub fn toggle(&mut self)
        ensures
            *final(self) == toggled(*old(self)),
    {
        *self = match *self {
            Cell::Ground => Cell::Wall,
            Cell::Wall => Cell::Ground,
            e => e,
        };
    }

    /// Marks this cell as the start cell.
    pub fn start(&mut self)
        ensures
            *final(self) == Cell::Start,
    {
        *self = Cell::Start
    }

    /// Marks this cell as the end cell.
    pub fn end(&mut self)
        ensures
            *final(self) == Cell::End,
    {
        *self = Cell::End
    }
}

} // verus!
