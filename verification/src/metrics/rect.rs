//! The [`Rect`] struct and related functionality.

use vstd::prelude::*;

use super::anchor::{self, Anchor};
use super::length::{fits, spec_clamp, Length};
use super::point::{Coord, Point};
use super::size::Size;

verus! {

/// Output-independent rectangle.
#[derive(Clone, Copy, Debug, PartialEq, Eq, Structural, Hash)]
pub struct Rect {
    /// Position of the top-left of this rectangle.
    pub top_left: Point,
    /// Size of the rectangle.
    pub size: Size,
}

/// The default rectangle is empty and sits at the origin.
impl Default for Rect {
    fn default() -> (r: Self)
        ensures
            r == Rect::zero(),
    {
        Rect { top_left: Point { x: 0, y: 0 }, size: Size { w: 0, h: 0 } }
    }
}

impl Rect {
    /// The empty rectangle at the origin.
    pub open spec fn zero() -> Rect {
        Rect { top_left: Point { x: 0, y: 0 }, size: Size { w: 0, h: 0 } }
    }

    /// The X coordinate `dx` to the right of `anchor` on this rectangle.
    pub open spec fn spec_x(self, dx: int, anchor: anchor::X) -> int {
        self.top_left.x + dx + anchor.spec_offset(self.size.w as int)
    }

    /// The Y coordinate `dy` below `anchor` on this rectangle.
    pub open spec fn spec_y(self, dy: int, anchor: anchor::Y) -> int {
        self.top_left.y + dy + anchor.spec_offset(self.size.h as int)
    }

    /// Makes a rectangle with top-left at (`x`, `y`), width `w`, and height `h`.
    #[must_use]
    pub fn new(x: Coord, y: Coord, w: Length, h: Length) -> (r: Self)
        ensures
            r == (Rect { top_left: Point { x, y }, size: Size { w, h } }),
    {
        Self { top_left: Point { x, y }, size: Size { w, h } }
    }

    /// Makes a rectangle with top-left at `top_left` and bottom-right at `bottom_right`.
    ///
    /// In a dimension in which `bottom_right` is not beyond `top_left`, the rectangle has
    /// size zero.
    #[must_use]
    pub fn from_points(top_left: Point, bottom_right: Point) -> (r: Self)
        requires
            fits(bottom_right.x - top_left.x),
            fits(bottom_right.y - top_left.y),
        ensures
            r.top_left == top_left,
            r.size.w == spec_clamp(bottom_right.x - top_left.x),
            r.size.h == spec_clamp(bottom_right.y - top_left.y),
    {
        let w = bottom_right.x - top_left.x;
        let h = bottom_right.y - top_left.y;
        let size = Size { w, h }.clamp();
        Self { top_left, size }
    }

    /// Resolves a point within a rectangle, given an offset (`dx`, `dy`) from `anchor`.
    #[must_use]
    pub fn point(self, dx: Length, dy: Length, anchor: Anchor) -> (p: Point)
        requires
            fits(self.top_left.x + dx),
            fits(self.top_left.y + dy),
            fits(self.spec_x(dx as int, anchor.x)),
            fits(self.spec_y(dy as int, anchor.y)),
        ensures
            p.x == self.spec_x(dx as int, anchor.x),
            p.y == self.spec_y(dy as int, anchor.y),
    {
        Point { x: self.x(dx, anchor.x), y: self.y(dy, anchor.y) }
    }

    /// Shorthand for getting an anchor point on a rectangle.
    #[must_use]
    pub fn anchor(self, anchor: Anchor) -> (p: Point)
        requires
            fits(self.spec_x(0, anchor.x)),
            fits(self.spec_y(0, anchor.y)),
        ensures
            p.x == self.spec_x(0, anchor.x),
            p.y == self.spec_y(0, anchor.y),
    {
        self.point(0, 0, anchor)
    }

    /// Resolves an X coordinate within a rectangle, given an offset `dx` from `anchor`.
    #[must_use]
    pub fn x(self, dx: Length, anchor: anchor::X) -> (x: Coord)
        requires
            fits(self.top_left.x + dx),
            fits(self.spec_x(dx as int, anchor)),
        ensures
            x == self.spec_x(dx as int, anchor),
    {
        self.top_left.x + dx + anchor.offset(self.size.w)
    }

    /// Resolves a Y coordinate within a rectangle, given an offset `dy` from `anchor`.
    #[must_use]
    pub fn y(self, dy: Length, anchor: anchor::Y) -> (y: Coord)
        requires
            fits(self.top_left.y + dy),
            fits(self.spec_y(dy as int, anchor)),
        ensures
            y == self.spec_y(dy as int, anchor),
    {
        self.top_left.y + dy + anchor.offset(self.size.h)
    }

    /// Produces a new rectangle by growing this one by `amount` on each side.
    ///
    /// To shrink, grow by a negative amount.
    #[must_use]
    pub fn grow(self, amount: Length) -> (r: Self)
        requires
            fits(-amount),
            fits(amount * 2),
            fits(self.top_left.x - amount),
            fits(self.top_left.y - amount),
            fits(self.size.w + amount * 2),
            fits(self.size.h + amount * 2),
        ensures
            r.top_left.x == self.top_left.x - amount,
            r.top_left.y == self.top_left.y - amount,
            r.size.w == spec_clamp(self.size.w + amount * 2),
            r.size.h == spec_clamp(self.size.h + amount * 2),
    {
        Self { top_left: self.top_left.offset(-amount, -amount), size: self.size.grow(amount * 2) }
    }
}

} // verus!
