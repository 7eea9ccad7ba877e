//! The [`Point`] struct and related functionality.

use vstd::prelude::*;

use super::anchor::Anchor;
use super::length::{fits, Length};
use super::rect::Rect;
use super::size::Size;

verus! {

/// Type of coordinates.
pub type Coord = i32;

/// A two-dimensional point.
///
/// Points can have negative coordinates, to allow relative offsetting.
#[derive(Clone, Copy, Debug, PartialEq, Eq, Structural, Hash)]
pub struct Point {
    /// The X-coordinate of the point.
    pub x: Coord,
    /// The Y-coordinate of the point.
    pub y: Coord,
}

/// The default point is the origin.
impl Default for Point {
    fn default() -> (p: Self)
        ensures
            p == (Point { x: 0, y: 0 }),
    {
        Point { x: 0, y: 0 }
    }
}

impl Point {
    /// Offsets a point by the given deltas, returning a new point.
    #[must_use]
    pub fn offset(self, dx: Length, dy: Length) -> (p: Self)
        requires
            fits(self.x + dx),
            fits(self.y + dy),
        ensures
            p.x == self.x + dx,
            p.y == self.y + dy,
    {
        let mut p = self;
        p.offset_mut(dx, dy);
        p
    }

    /// Offsets a point by the given deltas, in place.
    pub fn offset_mut(&mut self, dx: Length, dy: Length)
        requires
            fits(old(self).x + dx),
            fits(old(self).y + dy),
        ensures
            final(self).x == old(self).x + dx,
            final(self).y == old(self).y + dy,
    {
        self.x += dx;
        self.y += dy;
    }

    /// Lifts this point to a [`Rect`] of the given size, of which the point is the given
    /// `anchor`.
    #[must_use]
    pub fn to_rect(self, size: Size, anchor: Anchor) -> (r: Rect)
        requires
            fits(-anchor.x.spec_offset(size.w as int)),
            fits(-anchor.y.spec_offset(size.h as int)),
            fits(self.x - anchor.x.spec_offset(size.w as int)),
            fits(self.y - anchor.y.spec_offset(size.h as int)),
        ensures
            r.size == size,
            r.top_left.x == self.x - anchor.x.spec_offset(size.w as int),
            r.top_left.y == self.y - anchor.y.spec_offset(size.h as int),
    {
        Rect { top_left: self.offset(-anchor.x.offset(size.w), -anchor.y.offset(size.h)), size }
    }
}

/// A two-dimensional delta on a point.
#[derive(Clone, Copy, Debug, PartialEq, Eq, Structural, Hash)]
pub struct Delta {
    /// The X-offset of the point.
    pub dx: Coord,
    /// The Y-offset of the point.
    pub dy: Coord,
}

/// The default delta moves nothing.
impl Default for Delta {
    fn default() -> (d: Self)
        ensures
            d == (Delta { dx: 0, dy: 0 }),
    {
        Delta { dx: 0, dy: 0 }
    }
}

} // verus!
