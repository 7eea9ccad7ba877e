//! Helper functions for lengths.

use vstd::prelude::*;

verus! {

/// Type of pixel lengths, and of deltas on lengths.
pub type Length = i32;

/// Whether the integer `v` can be held in a [`Length`].
pub open spec fn fits(v: int) -> bool {
    i32::MIN <= v <= i32::MAX
}

/// The larger of two integers.
pub open spec fn spec_max(x: int, y: int) -> int {
    if x < y {
        y
    } else {
        x
    }
}

/// The integer `l`, or zero if `l` is negative.
pub open spec fn spec_clamp(l: int) -> int {
    spec_max(l, 0)
}

/// Maximum of two lengths.
#[must_use]
pub fn max(x: Length, y: Length) -> (m: Length)
    ensures
        m == spec_max(x as int, y as int),
{
    if x < y {
        y
    } else {
        x
    }
}

/// Clamps a length to zero if it is negative.
#[must_use]
pub fn clamp(l: Length) -> (c: Length)
    ensures
        c == spec_clamp(l as int),
{
    max(l, 0)
}

} // verus!
