//! Terminal sizes and the rectangles that panes occupy.

use vstd::prelude::*;

verus! {

/// The size of a terminal, in character cells.
#[derive(Clone, Copy, Debug, PartialEq, Eq, Structural)]
pub struct Size {
    pub cols: u16,
    pub rows: u16,
}

impl Default for Size {
    fn default() -> (size: Self)
        ensures
            size == (Size { cols: 0, rows: 0 }),
    {
        Size { cols: 0, rows: 0 }
    }
}

impl Size {
    pub fn new(cols: u16, rows: u16) -> (size: Self)
        ensures
            size == (Size { cols, rows }),
    {
        Size { cols, rows }
    }

    /// The size with both dimensions raised to at least one cell.
    pub open spec fn at_least_one(self) -> Size {
        Size {
            cols: if self.cols == 0 { 1 } else { self.cols },
            rows: if self.rows == 0 { 1 } else { self.rows },
        }
    }

    pub fn bounded(self) -> (size: Self)
        ensures
            size == self.at_least_one(),
    {
        Size {
            cols: if self.cols == 0 { 1 } else { self.cols },
            rows: if self.rows == 0 { 1 } else { self.rows },
        }
    }
}

/// Where a pane stands in its window.
#[derive(Clone, Copy, Debug, PartialEq, Eq, Structural)]
pub struct Rect {
    pub x: u16,
    pub y: u16,
    pub cols: u16,
    pub rows: u16,
}

impl Default for Rect {
    fn default() -> (rect: Self)
        ensures
            rect == (Rect { x: 0, y: 0, cols: 0, rows: 0 }),
    {
        Rect { x: 0, y: 0, cols: 0, rows: 0 }
    }
}

/// The direction in which a split lines its two parts up.
#[derive(Clone, Copy, Debug, PartialEq, Eq, Structural)]
pub enum Axis {
    Horizontal,
    Vertical,
}

impl Rect {
    /// The rectangle of a window.
    pub open spec fn covering(size: Size) -> Rect {
        Rect { x: 0, y: 0, cols: size.cols, rows: size.rows }
    }

    pub fn of_size(size: Size) -> (rect: Self)
        ensures
            rect == Rect::covering(size),
    {
        Rect { x: 0, y: 0, cols: size.cols, rows: size.rows }
    }

    /// Whether a cell lies in the rectangle.
    pub open spec fn has_cell(self, x: int, y: int) -> bool {
        self.x <= x < self.x + self.cols && self.y <= y < self.y + self.rows
    }

    /// The length of the rectangle along an axis.
    pub open spec fn length(self, axis: Axis) -> u16 {
        match axis {
            Axis::Horizontal => self.cols,
            Axis::Vertical => self.rows,
        }
    }
}

} // verus!
