//! The [`Size`] struct and related functionality.

use vstd::prelude::*;

use super::length::{self, fits, spec_clamp, spec_max, Length};

verus! {

/// A two-dimensional size.
#[derive(Clone, Copy, Debug, PartialEq, Eq, Structural, Hash)]
pub struct Size {
    /// Width in pixels.
    pub w: Length,
    /// Height in pixels.
    pub h: Length,
}

/// The default size is empty.
impl Default for Size {
    fn default() -> (s: Self)
        ensures
            s == (Size { w: 0, h: 0 }),
    {
        Size { w: 0, h: 0 }
    }
}

impl Size {
    /// Whether either dimension of this size is zero or less.
    pub open spec fn spec_is_zero(&self) -> bool {
        self.w <= 0 || self.h <= 0
    }

    /// Whether neither dimension of this size is negative.
    pub open spec fn spec_is_normal(&self) -> bool {
        0 <= self.w && 0 <= self.h
    }

    /// Grows the size in both dimensions by `amount`.
    ///
    /// To shrink, grow by a negative amount.  Neither dimension will shrink past 0.
    #[must_use]
    pub fn grow(self, amount: Length) -> (s: Self)
        requires
            fits(self.w + amount),
            fits(self.h + amount),
        ensures
            s.w == spec_clamp(self.w + amount),
            s.h == spec_clamp(self.h + amount),
    {
        Self { w: length::clamp(self.w + amount), h: length::clamp(self.h + amount) }
    }

    /// Returns a size that is the maximum of `self` and `other` horizontally, and their sum
    /// vertically.
    #[must_use]
    pub fn stack_vertically(self, other: Self) -> (s: Self)
        requires
            fits(self.h + other.h),
        ensures
            s.w == spec_max(self.w as int, other.w as int),
            s.h == self.h + other.h,
    {
        Self { w: length::max(self.w, other.w), h: self.h + other.h }
    }

    /// Returns a size that is the maximum of `self` and `other` vertically, and their sum
    /// horizontally.
    #[must_use]
    pub fn stack_horizontally(self, other: Self) -> (s: Self)
        requires
            fits(self.w + other.w),
        ensures
            s.w == self.w + other.w,
            s.h == spec_max(self.h as int, other.h as int),
    {
        Self { w: self.w + other.w, h: length::max(self.h, other.h) }
    }

    /// Gets whether either dimension of this size is zero.
    #[must_use]
    #[verifier::when_used_as_spec(spec_is_zero)]
    pub fn is_zero(&self) -> (z: bool)
        ensures
            z == self.spec_is_zero(),
    {
        self.w <= 0 || self.h <= 0
    }

    /// Gets whether both dimensions of this size are non-negative.
    #[must_use]
    #[verifier::when_used_as_spec(spec_is_normal)]
    pub fn is_normal(&self) -> (n: bool)
        ensures
            n == self.spec_is_normal(),
    {
        0 <= self.w && 0 <= self.h
    }

    /// Clamps negative dimensions to zero.
    #[must_use]
    pub fn clamp(&self) -> (s: Self)
        ensures
            s.w == spec_clamp(self.w as int),
            s.h == spec_clamp(self.h as int),
            s.is_normal(),
    {
        // Growing clamps as a side effect, so growing by nothing is clamping.
        self.grow(0)
    }
}

} // verus!
