//! A pixel-font text layout engine with a cached font resource manager.
//!
//! Given the metrics of a proportional bitmap font, the library computes, for every character
//! of a string, where its glyph sits in the font texture and where it goes on screen.  Every
//! executable function carries a contract, and Verus proves each body against it.

pub mod backends;
pub mod colour;
pub mod error;
pub mod font;
pub mod metrics;
pub mod render;
pub mod resource;
pub mod text;
pub mod ui;

pub use error::{Error, Result};
pub use font::Font;
pub use render::Renderer;
