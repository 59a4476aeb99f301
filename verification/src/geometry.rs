//! Points, extents and rectangles in whole pixels.

use vstd::prelude::*;

verus! {

/// A point or an extent in the plane.
#[derive(Clone, Copy, Debug, PartialEq, Eq, Structural)]
pub struct Vec2 {
    pub x: i64,
    pub y: i64,
}

/// An axis-aligned rectangle: its corner of least coordinates and its size.
#[derive(Clone, Copy, Debug, PartialEq, Eq, Structural)]
pub struct Rect {
    pub x: i64,
    pub y: i64,
    pub w: i64,
    pub h: i64,
}

/// Whether the pixel `(x, y)` belongs to the half-open area
/// `[x0, x0 + w) x [y0, y0 + h)`. Areas that meet along an edge share no
/// pixel, so this is the notion under which a grid of cells tiles a surface.
pub open spec fn covers(x0: int, y0: int, w: int, h: int, x: int, y: int) -> bool {
    &&& x0 <= x < x0 + w
    &&& y0 <= y < y0 + h
}

/// Whether the point `(x, y)` lies strictly inside the rectangle with corner
/// `pos` and size `size`. A point on an edge is outside.
pub open spec fn strictly_inside(pos: Vec2, size: Vec2, x: int, y: int) -> bool {
    &&& pos.x < x
    &&& pos.x + size.x > x
    &&& pos.y < y
    &&& pos.y + size.y > y
}

/// Whether two points share exactly one of their coordinates: they lie on
/// one horizontal or one vertical line and are not the same point.
pub open spec fn aligned(a: Vec2, b: Vec2) -> bool {
    ||| a.y == b.y && a.x != b.x
    ||| a.x == b.x && a.y != b.y
}

/// Tests whether `(x, y)` lies strictly inside the rectangle at `pos` of size `size`.
pub fn is_strictly_inside(pos: Vec2, size: Vec2, x: i64, y: i64) -> (inside: bool)
    requires
        i64::MIN <= pos.x + size.x <= i64::MAX,
        i64::MIN <= pos.y + size.y <= i64::MAX,
    ensures
        inside == strictly_inside(pos, size, x as int, y as int),
{
    pos.x < x && pos.x + size.x > x && pos.y < y && pos.y + size.y > y
}

/// Tests whether two points share exactly one coordinate.
pub fn is_aligned(a: Vec2, b: Vec2) -> (result: bool)
    ensures
        result == aligned(a, b),
{
    (a.y == b.y && a.x != b.x) || (a.x == b.x && a.y != b.y)
}

} // verus!
