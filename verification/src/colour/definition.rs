//! Colour definitions.

use vstd::prelude::*;

verus! {

/// A true-colour definition.
#[derive(Copy, Clone, Debug, PartialEq, Eq, Structural)]
pub struct Definition {
    /// The red component.
    pub r: u8,
    /// The green component.
    pub g: u8,
    /// The blue component.
    pub b: u8,
    /// The alpha component: 0 is transparent, 255 is opaque.
    pub a: u8,
}

/// The default colour is transparent black.
impl Default for Definition {
    fn default() -> (colour: Self)
        ensures
            colour == (Definition { r: 0, g: 0, b: 0, a: 0 }),
    {
        Definition { r: 0, g: 0, b: 0, a: 0 }
    }
}

impl Definition {
    /// Whether this colour is transparent.
    pub open spec fn spec_is_transparent(&self) -> bool {
        self.a == 0
    }

    /// Constructs a colour using bytes for red, green, blue, and alpha components.
    #[must_use]
    pub fn rgba(r: u8, g: u8, b: u8, a: u8) -> (colour: Self)
        ensures
            colour == (Definition { r, g, b, a }),
    {
        Definition { r, g, b, a }
    }

    /// Constructs a colour using bytes for red, green, and blue components (and full alpha).
    #[must_use]
    pub fn rgb(r: u8, g: u8, b: u8) -> (colour: Self)
        ensures
            colour == (Definition { r, g, b, a: 255 }),
    {
        Definition { r, g, b, a: 255 }
    }

    /// Constructs a transparent black colour.
    #[must_use]
    pub fn transparent() -> (colour: Self)
        ensures
            colour == (Definition { r: 0, g: 0, b: 0, a: 0 }),
    {
        Definition { r: 0, g: 0, b: 0, a: 0 }
    }

    /// Gets whether this colour is transparent.
    #[must_use]
    #[verifier::when_used_as_spec(spec_is_transparent)]
    pub fn is_transparent(&self) -> (transparent: bool)
        ensures
            transparent == self.spec_is_transparent(),
    {
        self.a == 0
    }

    /// Gets the red component of this colour as a byte.
    #[must_use]
    pub fn red_byte(&self) -> (r: u8)
        ensures
            r == self.r,
    {
        self.r
    }

    /// Gets the green component of this colour as a byte.
    #[must_use]
    pub fn green_byte(&self) -> (g: u8)
        ensures
            g == self.g,
    {
        self.g
    }

    /// Gets the blue component of this colour as a byte.
    #[must_use]
    pub fn blue_byte(&self) -> (b: u8)
        ensures
            b == self.b,
    {
        self.b
    }

    /// Gets the alpha component of this colour as a byte.
    #[must_use]
    pub fn alpha_byte(&self) -> (a: u8)
        ensures
            a == self.a,
    {
        self.a
    }
}

/// Pair of foreground and background colour maps.
#[derive(Debug, Clone)]
pub struct MapSet<Fg, Bg> {
    /// Foreground colour space.
    pub fg: Fg,
    /// Background colour space.
    pub bg: Bg,
}

} // verus!
