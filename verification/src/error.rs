//! Errors of the graphics library.

use vstd::prelude::*;

use crate::font;

verus! {

/// A user interface error.
#[derive(Debug)]
pub enum Error {
    /// A formatting error has occurred.
    ///
    /// This generally comes from trying to write formatted text to the UI.
    Fmt,
    /// An error occurred while handling a font.
    Font(font::Error),
    /// An error was raised by the backend, with the given message.
    Backend(String),
}

/// Shorthand for a `std::result::Result` over [`Error`].
pub type Result<T> = std::result::Result<T, Error>;

} // verus!
