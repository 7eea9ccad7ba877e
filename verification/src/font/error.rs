//! Errors raised by the font subsystem.

use vstd::prelude::*;

use super::manager::Index;
use super::metrics::kerning;
use crate::metrics::length::Length;

verus! {

/// A font error.
#[derive(Debug)]
pub enum Error {
    /// A font file could not be read; the message says why.
    Io(String),
    /// A metrics file could not be parsed; the message says why.
    MetricsParse(String),
    /// A texture file could not be loaded; the message says why.
    TextureLoad(String),
    /// A width override tried to make a character wider than its cell in the texture grid.
    OverlyLargeOverride {
        /// The width of a cell.
        grid_width: Length,
        /// The width that the override asked for.
        override_width: Length,
    },
    /// The kerning tables of a font could not be compiled.
    Kerning(kerning::Error),
    /// A font handle was used that no loaded font answers to.
    BadHandle(Index),
}

/// Shorthand for a result using [`Error`].
pub type Result<T> = std::result::Result<T, Error>;

} // verus!
