//! Rectangles in character cells.

use vstd::prelude::*;

verus! {

/// A rectangle of character cells: its top-left cell and its size.
#[derive(Clone, Copy, Debug, PartialEq, Eq, Structural)]
pub struct Rect {
    pub x: u16,
    pub y: u16,
    pub width: u16,
    pub height: u16,
}

/// The smaller of two cell counts.
pub open spec fn min_int(a: int, b: int) -> int {
    if a <= b {
        a
    } else {
        b
    }
}

impl Rect {
    /// The first column to the right of the rectangle, held to the largest
    /// coordinate there is.
    pub open spec fn spec_right(self) -> int {
        min_int(self.x + self.width, u16::MAX as int)
    }

    /// The first row below the rectangle, held to the largest coordinate
    /// there is.
    pub open spec fn spec_bottom(self) -> int {
        min_int(self.y + self.height, u16::MAX as int)
    }

    /// The rectangle ends inside the coordinate space, so that its right and
    /// bottom edges are `x + width` and `y + height`.
    pub open spec fn fits(self) -> bool {
        self.x + self.width <= u16::MAX && self.y + self.height <= u16::MAX
    }

    /// The cell at column `x` and row `y` lies inside the rectangle.
    pub open spec fn spec_contains(self, x: u16, y: u16) -> bool {
        self.x <= x && x < self.spec_right() && self.y <= y && y < self.spec_bottom()
    }

    /// A rectangle at `(x, y)`, its size cut down to what the coordinate
    /// space holds to the right of `x` and below `y`.
    pub fn new(x: u16, y: u16, width: u16, height: u16) -> (r: Rect)
        ensures
            r.x == x,
            r.y == y,
            r.width == min_int(width as int, u16::MAX - x),
            r.height == min_int(height as int, u16::MAX - y),
            r.fits(),
    {
        let max_width: u16 = u16::MAX - x;
        let max_height: u16 = u16::MAX - y;
        Rect {
            x,
            y,
            width: if width > max_width { max_width } else { width },
            height: if height > max_height { max_height } else { height },
        }
    }

    /// The leftmost column.
    pub fn left(&self) -> (r: u16)
        ensures
            r == self.x,
    {
        self.x
    }

    /// The topmost row.
    pub fn top(&self) -> (r: u16)
        ensures
            r == self.y,
    {
        self.y
    }

    /// The first column to the right of the rectangle.
    pub fn right(&self) -> (r: u16)
        ensures
            r == self.spec_right(),
            self.fits() ==> r == self.x + self.width,
    {
        if self.width > u16::MAX - self.x {
            u16::MAX
        } else {
            self.x + self.width
        }
    }

    /// The first row below the rectangle.
    pub fn bottom(&self) -> (r: u16)
        ensures
            r == self.spec_bottom(),
            self.fits() ==> r == self.y + self.height,
    {
        if self.height > u16::MAX - self.y {
            u16::MAX
        } else {
            self.y + self.height
        }
    }

    /// The number of cells in the rectangle.
    pub fn area(&self) -> (n: u64)
        ensures
            n == self.width * self.height,
    {
        assert(self.width * self.height <= 0xffff * 0xffff) by (nonlinear_arith)
            requires
                self.width <= 0xffff,
                self.height <= 0xffff,
        ;
        self.width as u64 * self.height as u64
    }

    /// Whether the rectangle holds no cell.
    pub fn is_empty(&self) -> (r: bool)
        ensures
            r == (self.width == 0 || self.height == 0),
    {
        self.width == 0 || self.height == 0
    }

    /// Whether the cell at column `x` and row `y` lies inside the rectangle.
    pub fn contains(&self, x: u16, y: u16) -> (r: bool)
        ensures
            r == self.spec_contains(x, y),
    {
        x >= self.x && x < self.right() && y >= self.y && y < self.bottom()
    }
}

} // verus!
