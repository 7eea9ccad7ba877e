//! What the rendering backends need from the library, in their own shapes.

pub mod sdl;
