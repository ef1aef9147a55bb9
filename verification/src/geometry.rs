//! Positions, sizes and rectangles used by the floating-window hit test.
//!
//! Position and size are opaque scalars to the store; it only uses them to
//! form a point-in-rectangle containment test, half-open on both axes.

use vstd::prelude::*;

verus! {

/// A point on the screen.
#[derive(Clone, Copy, PartialEq, Eq, Structural, Debug)]
pub struct Pos2 {
    pub x: i32,
    pub y: i32,
}

impl Pos2 {
    /// Builds a point from its coordinates.
    pub fn new(x: i32, y: i32) -> (r: Pos2)
        ensures
            r == (Pos2 { x, y }),
    {
        Pos2 { x, y }
    }
}

/// An extent (width and height).
#[derive(Clone, Copy, PartialEq, Eq, Structural, Debug)]
pub struct Vec2 {
    pub x: i32,
    pub y: i32,
}

impl Vec2 {
    /// Builds an extent from its components.
    pub fn new(x: i32, y: i32) -> (r: Vec2)
        ensures
            r == (Vec2 { x, y }),
    {
        Vec2 { x, y }
    }
}

/// An axis-aligned rectangle given by its minimum corner and its size.
#[derive(Clone, Copy, PartialEq, Eq, Structural, Debug)]
pub struct Rect {
    pub min: Pos2,
    pub size: Vec2,
}

impl Rect {
    /// Containment: half-open on both axes, so a rectangle of zero width or
    /// height (or a negative one) contains no point at all.
    pub open spec fn spec_contains(self, p: Pos2) -> bool {
        &&& self.min.x <= p.x < self.min.x + self.size.x
        &&& self.min.y <= p.y < self.min.y + self.size.y
    }

    /// Builds the rectangle with the given minimum corner and size.
    pub fn from_min_size(min: Pos2, size: Vec2) -> (r: Rect)
        ensures
            r == (Rect { min, size }),
    {
        Rect { min, size }
    }

    /// Whether the point lies inside the rectangle.
    ///
    /// The sums are formed in a wider integer type, so no bound on the
    /// coordinates is needed.
    pub fn contains(&self, p: Pos2) -> (r: bool)
        ensures
            r == self.spec_contains(p),
    {
        let min_x = self.min.x as i64;
        let min_y = self.min.y as i64;
        let px = p.x as i64;
        let py = p.y as i64;
        min_x <= px && px < min_x + (self.size.x as i64) && min_y <= py && py < min_y + (
        self.size.y as i64)
    }
}

} // verus!
