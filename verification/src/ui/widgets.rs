//! Basic widgets.

pub mod label;

pub use label::Label;
