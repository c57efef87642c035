//! Points, sizes and rectangles in fixed-point coordinates.
use vstd::prelude::*;
use crate::fixed::sat64;
use crate::fixed::sat_add;
use crate::fixed::sat_sub;

verus! {

/// A position; both coordinates count millionths.
#[derive(Clone, Copy, Debug, PartialEq, Eq, Structural)]
pub struct Point {
    pub x: i64,
    pub y: i64,
}

/// An extent along both axes.
#[derive(Clone, Copy, Debug, PartialEq, Eq, Structural)]
pub struct Size {
    pub width: i64,
    pub height: i64,
}

/// An axis-aligned rectangle given by two opposite corners.
#[derive(Clone, Copy, Debug, PartialEq, Eq, Structural)]
pub struct Rect {
    pub min: Point,
    pub max: Point,
}

/// A straight line between two points.
#[derive(Clone, Copy, Debug, PartialEq, Eq, Structural)]
pub struct Line {
    pub from: Point,
    pub to: Point,
}

impl Point {
    /// The point `(x, y)`.
    pub fn new(x: i64, y: i64) -> (p: Point)
        ensures
            p == (Point { x, y }),
    {
        Point { x, y }
    }
}

impl Size {
    /// The size `width` by `height`.
    pub fn new(width: i64, height: i64) -> (s: Size)
        ensures
            s == (Size { width, height }),
    {
        Size { width, height }
    }
}

impl Rect {
    /// The exact horizontal extent, negative where the corners are swapped.
    pub open spec fn w(self) -> int {
        self.max.x - self.min.x
    }

    /// The exact vertical extent, negative where the corners are swapped.
    pub open spec fn h(self) -> int {
        self.max.y - self.min.y
    }

    /// Both extents are strictly positive.
    pub open spec fn positive(self) -> bool {
        self.min.x < self.max.x && self.min.y < self.max.y
    }

    /// `p` lies inside the rectangle or on its border.
    pub open spec fn holds(self, p: Point) -> bool {
        self.min.x <= p.x <= self.max.x && self.min.y <= p.y <= self.max.y
    }

    /// The rectangle with corner `min` and the given size.
    pub open spec fn spanning(min: Point, size: Size) -> Rect {
        Rect {
            min,
            max: Point { x: sat64(min.x + size.width), y: sat64(min.y + size.height) },
        }
    }

    /// The rectangle with corner `min` and the given size.
    pub fn from_min_size(min: Point, size: Size) -> (r: Rect)
        ensures
            r == Rect::spanning(min, size),
    {
        Rect { min, max: Point { x: sat_add(min.x, size.width), y: sat_add(min.y, size.height) } }
    }

    /// The horizontal extent, saturating.
    pub fn width(&self) -> (w: i64)
        ensures
            w == sat64(self.w()),
    {
        sat_sub(self.max.x, self.min.x)
    }

    /// The vertical extent, saturating.
    pub fn height(&self) -> (h: i64)
        ensures
            h == sat64(self.h()),
    {
        sat_sub(self.max.y, self.min.y)
    }

    /// Whether both extents are strictly positive.
    pub fn is_positive(&self) -> (b: bool)
        ensures
            b == self.positive(),
    {
        self.min.x < self.max.x && self.min.y < self.max.y
    }

    /// Whether `p` lies inside the rectangle or on its border.
    pub fn contains(&self, p: Point) -> (b: bool)
        ensures
            b == self.holds(p),
    {
        self.min.x <= p.x && p.x <= self.max.x && self.min.y <= p.y && p.y <= self.max.y
    }
}

} // verus!
