use vstd::prelude::*;

use crate::cso::CSO;

verus! {

/// A grid position; `(0, 0)` is the top-left corner and `y` grows downward.
#[derive(PartialEq, Eq, Structural, Clone, Copy, Debug)]
pub struct Point {
    pub x: u32,
    pub y: u32,
}

impl Point {
    /// The position one row up, if there is one.
    pub open spec fn up(self) -> Option<Point> {
        if self.y > 0 {
            Some(Point { x: self.x, y: (self.y - 1) as u32 })
        } else {
            None
        }
    }

    /// The position one row down, if it lies inside a grid of `height` rows.
    pub open spec fn down_within(self, height: int) -> Option<Point> {
        if self.y + 1 < height {
            Some(Point { x: self.x, y: (self.y + 1) as u32 })
        } else {
            None
        }
    }

    /// The position one column to the left, if there is one.
    pub open spec fn left_of(self) -> Option<Point> {
        if self.x > 0 {
            Some(Point { x: (self.x - 1) as u32, y: self.y })
        } else {
            None
        }
    }

    /// The position one column to the right, if it lies inside a grid of
    /// `width` columns.
    pub open spec fn right_within(self, width: int) -> Option<Point> {
        if self.x + 1 < width {
            Some(Point { x: (self.x + 1) as u32, y: self.y })
        } else {
            None
        }
    }

    pub fn at(x: u32, y: u32) -> (r: Point)
        ensures
            r.x == x,
            r.y == y,
    {
        Point { x, y }
    }

    /// No position above the top row.
    pub fn above(&self) -> (r: Option<Point>)
        ensures
            r == self.up(),
    {
        if self.y > 0 {
            Some(Point::at(self.x, self.y - 1))
        } else {
            None
        }
    }

    /// No position left of the first column.
    pub fn left(&self) -> (r: Option<Point>)
        ensures
            r == self.left_of(),
    {
        if self.x > 0 {
            Some(Point::at(self.x - 1, self.y))
        } else {
            None
        }
    }

    /// No position right of the last column, `x == width - 1`.
    pub fn right_in(&self, cso: &CSO) -> (r: Option<Point>)
        ensures
            r == self.right_within(cso@.width),
    {
        proof {
            cso.lemma_dimensions();
        }
        if cso.width > 0 && self.x < cso.width - 1 {
            Some(Point::at(self.x + 1, self.y))
        } else {
            None
        }
    }

    /// No position below the bottom row, `y == height - 1`.
    pub fn below_in(&self, cso: &CSO) -> (r: Option<Point>)
        ensures
            r == self.down_within(cso@.height),
    {
        proof {
            cso.lemma_dimensions();
        }
        if cso.height > 0 && self.y < cso.height - 1 {
            Some(Point::at(self.x, self.y + 1))
        } else {
            None
        }
    }
}

} // verus!
