//! Notions of colour, colour maps, and so on.
//!
//! Colours are true-colour definitions, looked up in colour maps by identifiers that the
//! application chooses.

pub mod definition;
pub mod ega;
pub mod id;

pub use definition::{Definition, MapSet};
pub use ega::{ega, Ega};
