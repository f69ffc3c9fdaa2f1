//! Integer geometry: points, sizes and axis-aligned rectangles.
//!
//! Coordinates are signed 64-bit integers. Sums of coordinates (for example
//! when a position is resolved against a chain of ancestors) are computed
//! exactly and clamped into the representable range at the end.

use vstd::prelude::*;

verus! {

/// Smallest representable coordinate.
pub const COORD_MIN: i64 = -0x8000_0000_0000_0000;

/// Largest representable coordinate.
pub const COORD_MAX: i64 = 0x7fff_ffff_ffff_ffff;

/// Clamps a mathematical integer into the coordinate range.
pub open spec fn clamp_coord(v: int) -> int {
    if v < COORD_MIN as int {
        COORD_MIN as int
    } else if v > COORD_MAX as int {
        COORD_MAX as int
    } else {
        v
    }
}

/// Adds two coordinates, clamping the result into the coordinate range.
pub fn sat_add(a: i64, b: i64) -> (r: i64)
    ensures
        r as int == clamp_coord(a + b),
{
    if b >= 0 {
        if a > COORD_MAX - b {
            COORD_MAX
        } else {
            a + b
        }
    } else {
        if a < COORD_MIN - b {
            COORD_MIN
        } else {
            a + b
        }
    }
}

/// Subtracts two coordinates, clamping the result into the coordinate range.
pub fn sat_sub(a: i64, b: i64) -> (r: i64)
    ensures
        r as int == clamp_coord(a - b),
{
    if b <= 0 {
        if a > COORD_MAX + b {
            COORD_MAX
        } else {
            a - b
        }
    } else {
        if a < COORD_MIN + b {
            COORD_MIN
        } else {
            a - b
        }
    }
}

/// A point in window or widget space.
#[derive(Clone, Copy, Debug, PartialEq, Eq, Structural)]
pub struct Point {
    pub x: i64,
    pub y: i64,
}

/// A rectangle extent.
#[derive(Clone, Copy, Debug, PartialEq, Eq, Structural)]
pub struct Size {
    pub width: i64,
    pub height: i64,
}

/// An axis-aligned rectangle: an origin plus a size.
#[derive(Clone, Copy, Debug, PartialEq, Eq, Structural)]
pub struct Rect {
    pub origin: Point,
    pub size: Size,
}

impl Point {
    pub fn new(x: i64, y: i64) -> (r: Point)
        ensures
            r == (Point { x, y }),
    {
        Point { x, y }
    }
}

impl Size {
    pub fn new(width: i64, height: i64) -> (r: Size)
        ensures
            r == (Size { width, height }),
    {
        Size { width, height }
    }
}

/// Whether `p` lies inside `r`: at or right of / below the origin and
/// strictly left of / above the far edge.
pub open spec fn rect_contains(r: Rect, p: Point) -> bool {
    &&& r.origin.x <= p.x < clamp_coord(r.origin.x + r.size.width)
    &&& r.origin.y <= p.y < clamp_coord(r.origin.y + r.size.height)
}

impl Rect {
    pub fn new(origin: Point, size: Size) -> (r: Rect)
        ensures
            r == (Rect { origin, size }),
    {
        Rect { origin, size }
    }

    /// Returns whether `p` lies inside this rectangle.
    pub fn contains(&self, p: Point) -> (r: bool)
        ensures
            r == rect_contains(*self, p),
    {
        let right = sat_add(self.origin.x, self.size.width);
        let bottom = sat_add(self.origin.y, self.size.height);
        self.origin.x <= p.x && p.x < right && self.origin.y <= p.y && p.y < bottom
    }
}

impl Default for Point {
    /// The origin point.
    fn default() -> (r: Point)
        ensures
            r == (Point { x: 0, y: 0 }),
    {
        Point { x: 0, y: 0 }
    }
}

impl Default for Size {
    /// The empty size.
    fn default() -> (r: Size)
        ensures
            r == (Size { width: 0, height: 0 }),
    {
        Size { width: 0, height: 0 }
    }
}

impl Default for Rect {
    /// The empty rectangle at the origin.
    fn default() -> (r: Rect)
        ensures
            r == (Rect { origin: Point { x: 0, y: 0 }, size: Size { width: 0, height: 0 } }),
    {
        Rect { origin: Point { x: 0, y: 0 }, size: Size { width: 0, height: 0 } }
    }
}

} // verus!
