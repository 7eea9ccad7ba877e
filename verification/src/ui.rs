//! Tools for building a UI on top of the library.
//!
//! The UI is primarily retained-mode: it consists of widgets that one constructs statically,
//! then manipulates in three phases: layout, which occurs whenever the widgets or the window
//! dimensions change; update, which occurs whenever the UI state model changes; and render,
//! which occurs whenever the UI is dirty.

pub mod layout;
pub mod render;
pub mod update;
pub mod widgets;

pub use layout::Layoutable;
pub use render::Renderable;
pub use update::Updatable;
