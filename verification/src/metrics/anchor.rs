//! Anchors: the edges of a rectangle that a position can refer to.

use vstd::prelude::*;

verus! {

/// A two-dimensional anchor.
#[derive(Copy, Clone, Debug, PartialEq, Eq, Structural, Hash)]
pub struct Anchor {
    /// The X component of the anchor.
    pub x: X,
    /// The Y component of the anchor.
    pub y: Y,
}

/// The default anchor is top-left: text in left-to-right scripts starts there.
impl Default for Anchor {
    fn default() -> (a: Self)
        ensures
            a == (Anchor { x: X::Left, y: Y::Top }),
    {
        Anchor { x: X::Left, y: Y::Top }
    }
}

impl Anchor {
    /// Top-left anchoring.
    #[must_use]
    pub fn top_left() -> (a: Self)
        ensures
            a == (Anchor { x: X::Left, y: Y::Top }),
    {
        Anchor { x: X::Left, y: Y::Top }
    }

    /// Top-right anchoring.
    #[must_use]
    pub fn top_right() -> (a: Self)
        ensures
            a == (Anchor { x: X::Right, y: Y::Top }),
    {
        Anchor { x: X::Right, y: Y::Top }
    }

    /// Bottom-left anchoring.
    #[must_use]
    pub fn bottom_left() -> (a: Self)
        ensures
            a == (Anchor { x: X::Left, y: Y::Bottom }),
    {
        Anchor { x: X::Left, y: Y::Bottom }
    }

    /// Bottom-right anchoring.
    #[must_use]
    pub fn bottom_right() -> (a: Self)
        ensures
            a == (Anchor { x: X::Right, y: Y::Bottom }),
    {
        Anchor { x: X::Right, y: Y::Bottom }
    }
}

/// An anchor for the X co-ordinate.
#[derive(Copy, Clone, Debug, PartialEq, Eq, Structural, Hash)]
pub enum X {
    /// Anchoring to the left edge.
    Left,
    /// Anchoring to the right edge.
    Right,
}

/// The default X anchor is the left edge.
impl Default for X {
    fn default() -> (x: Self)
        ensures
            x == X::Left,
    {
        X::Left
    }
}

impl X {
    /// The distance from the left edge to this anchor in an object `width` wide.
    pub open spec fn spec_offset(self, width: int) -> int {
        match self {
            X::Left => 0,
            X::Right => width,
        }
    }

    /// Calculates the offset from left of this anchor in an object of width `width`.
    #[must_use]
    pub fn offset(self, width: i32) -> (o: i32)
        ensures
            o == self.spec_offset(width as int),
    {
        match self {
            Self::Left => 0,
            Self::Right => width,
        }
    }
}

/// An anchor for the Y co-ordinate.
#[derive(Copy, Clone, Debug, PartialEq, Eq, Structural, Hash)]
pub enum Y {
    /// Anchoring to the top edge.
    Top,
    /// Anchoring to the bottom edge.
    Bottom,
}

/// The default Y anchor is the top edge.
impl Default for Y {
    fn default() -> (y: Self)
        ensures
            y == Y::Top,
    {
        Y::Top
    }
}

impl Y {
    /// The distance from the top edge to this anchor in an object `height` tall.
    pub open spec fn spec_offset(self, height: int) -> int {
        match self {
            Y::Top => 0,
            Y::Bottom => height,
        }
    }

    /// Calculates the offset from top of this anchor in an object of height `height`.
    #[must_use]
    pub fn offset(self, height: i32) -> (o: i32)
        ensures
            o == self.spec_offset(height as int),
    {
        match self {
            Self::Top => 0,
            Self::Bottom => height,
        }
    }
}

} // verus!
