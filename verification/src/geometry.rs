//! Positions and sizes on an integer grid.

use vstd::prelude::*;

verus! {

/// A point on the grid. `x` grows to the right, `y` grows downwards.
#[derive(Debug, Clone, Copy, PartialEq, Eq, Structural)]
pub struct Position<T> {
    pub x: T,
    pub y: T,
}

/// The extent of a rectangle of cells.
#[derive(Debug, Clone, Copy, PartialEq, Eq, Structural)]
pub struct Size {
    pub height: usize,
    pub width: usize,
}

impl Size {
    /// The number of cells of the rectangle, as a mathematical integer.
    pub open spec fn spec_area(&self) -> int {
        self.height * self.width
    }

    /// The number of cells of the rectangle.
    pub fn area(&self) -> (cells: usize)
        requires
            self.spec_area() <= usize::MAX,
        ensures
            cells == self.spec_area(),
    {
        self.height * self.width
    }

    /// The number of cells, or `None` where it does not fit the machine word.
    pub fn checked_area(&self) -> (cells: Option<usize>)
        ensures
            self.spec_area() <= usize::MAX ==> cells == Some(self.spec_area() as usize),
            self.spec_area() > usize::MAX ==> cells.is_none(),
    {
        self.height.checked_mul(self.width)
    }

    /// The linear index of the cell at `row` and `col`, rows laid out one
    /// after another.
    pub open spec fn spec_index(&self, row: int, col: int) -> int {
        row * self.width + col
    }
}

} // verus!
