//! Conversion functions from the library's metrics to those of SDL.

use vstd::prelude::*;

use crate::metrics::length::{spec_clamp, Length};
use crate::metrics::size::Size;

verus! {

/// Converts a size to that of SDL (pair of width and height).
///
/// Negative widths and heights will be clipped to zero.
#[must_use]
pub fn convert_size(s: &Size) -> (size: (u32, u32))
    ensures
        size.0 == spec_clamp(s.w as int),
        size.1 == spec_clamp(s.h as int),
{
    (u32_or_zero(s.w), u32_or_zero(s.h))
}

/// Convert `x` to u32, set to 0 if negative.
pub(crate) fn u32_or_zero(x: Length) -> (clamped: u32)
    ensures
        clamped == spec_clamp(x as int),
{
    if x < 0 {
        0
    } else {
        x as u32
    }
}

} // verus!
