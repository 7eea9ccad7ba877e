//! Traits for low-level rendering.

pub mod logger;

use vstd::prelude::*;

use crate::error;
use crate::font;
use crate::metrics;

verus! {

/// Trait of things that provide rendering facilities.
///
/// The trait is parameterised by the identifiers used to look up fonts, foreground colours and
/// background colours in the application.
pub trait Renderer<FontId, FgId, BgId> {
    /// Writes the layout-calculated string `str` with the font `font` and foreground colour
    /// `fg`.
    ///
    /// # Errors
    ///
    /// Fails if the renderer can't render the writing.
    fn write(&mut self, font: FontId, fg: FgId, str: &font::layout::String) -> error::Result<()>;

    /// Fills the rectangle `rect` with the background colour `colour`.
    ///
    /// # Errors
    ///
    /// Returns an error if the renderer fails to blit the rect onto the screen.
    fn fill(&mut self, rect: metrics::Rect, colour: BgId) -> error::Result<()>;

    /// Clears the screen to the given background colour.
    ///
    /// # Errors
    ///
    /// Returns an error if the renderer fails to clear the screen.
    fn clear(&mut self, colour: BgId) -> error::Result<()>;

    /// Refreshes the screen.
    fn present(&mut self);
}

} // verus!
