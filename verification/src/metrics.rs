//! Lengths, points, sizes, rectangles and anchors.
//!
//! All lengths are `i32`s, even where a negative value makes no sense: a delta and a length
//! then share one type.  The unit is left to the renderer.

pub mod anchor;
pub mod length;
pub mod point;
pub mod rect;
pub mod size;

pub use anchor::Anchor;
pub use length::Length;
pub use point::Point;
pub use rect::Rect;
pub use size::Size;
