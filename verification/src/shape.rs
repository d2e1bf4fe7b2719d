//! Rectangles on the integer grid.

use vstd::prelude::*;

verus! {

/// An axis-aligned rectangle on the integer grid: `width` columns starting at
/// column `x`, `height` rows starting at row `y`.
#[derive(Clone, Copy, Debug, PartialEq, Eq, Structural)]
pub struct IRect {
    pub x: i32,
    pub y: i32,
    pub width: i32,
    pub height: i32,
}

impl IRect {
    /// Whether the rectangle covers the grid cell in column `px`, row `py`.
    pub open spec fn covers(self, px: int, py: int) -> bool {
        &&& self.x <= px < self.x + self.width
        &&& self.y <= py < self.y + self.height
    }

    /// Whether one rectangle ends before the other begins, along rows or
    /// along columns.
    pub open spec fn apart_from(self, other: IRect) -> bool {
        ||| self.x + self.width <= other.x
        ||| other.x + other.width <= self.x
        ||| self.y + self.height <= other.y
        ||| other.y + other.height <= self.y
    }

    /// Whether the rectangle lies inside the square of side `side` whose top
    /// left corner is the origin.
    pub open spec fn within_square(self, side: int) -> bool {
        &&& 0 <= self.x
        &&& 0 <= self.y
        &&& 0 <= self.width
        &&& 0 <= self.height
        &&& self.x + self.width <= side
        &&& self.y + self.height <= side
    }
}

/// Rectangles that are apart share no grid cell.
pub proof fn lemma_apart_rects_share_no_cell(a: IRect, b: IRect, px: int, py: int)
    requires
        a.apart_from(b),
    ensures
        !(a.covers(px, py) && b.covers(px, py)),
{
}

} // verus!
