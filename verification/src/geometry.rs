//! Rectangles in pixel coordinates.

use vstd::prelude::*;
use crate::raster::Grid;

verus! {

/// An axis-aligned rectangle of pixels, given by its first and last column
/// and its first and last row, all four inclusive.
#[derive(Clone, Copy, Debug, PartialEq, Eq, Structural)]
pub struct BoundingBox {
    pub min_x: u32,
    pub min_y: u32,
    pub max_x: u32,
    pub max_y: u32,
}

impl BoundingBox {
    /// The box encloses content: it spans more than one column and more than
    /// one row. Any other box stands for "nothing found".
    pub open spec fn valid(self) -> bool {
        self.max_x > self.min_x && self.max_y > self.min_y
    }

    /// The box is not empty and lies inside the grid.
    pub open spec fn within(self, g: Grid) -> bool {
        &&& self.min_x <= self.max_x < g.width
        &&& self.min_y <= self.max_y < g.height()
    }

    /// The number of columns from `min_x` to `max_x`.
    pub open spec fn spec_width(self) -> int {
        self.max_x - self.min_x + 1
    }

    /// The number of rows from `min_y` to `max_y`.
    pub open spec fn spec_height(self) -> int {
        self.max_y - self.min_y + 1
    }

    /// The pixel `(x, y)` lies in the box.
    pub open spec fn holds(self, x: int, y: int) -> bool {
        self.min_x <= x <= self.max_x && self.min_y <= y <= self.max_y
    }

    /// The part of the grid that the box encloses.
    pub open spec fn cut(self, g: Grid) -> Grid
        recommends
            self.within(g),
    {
        g.crop(self.min_x as int, self.min_y as int, self.spec_width(), self.spec_height())
    }

    /// Tells whether the box encloses content.
    pub fn is_valid(&self) -> (b: bool)
        ensures
            b == self.valid(),
    {
        self.max_x > self.min_x && self.max_y > self.min_y
    }
}

} // verus!
