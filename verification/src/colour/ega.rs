//! EGA palettes.
//!
//! This is both an example of how one might implement a colour resource map, and also a useful
//! set of defaults for loading into your own colour resource maps.

use vstd::prelude::*;
use vstd::std_specs::cmp::PartialEqSpecImpl;

use super::definition::Definition;
use crate::resource::ResourceMap;

verus! {

/// EGA base palette without intensity.
#[derive(Debug, Clone, Copy)]
pub struct Base {
    /// Black.
    pub black: Definition,
    /// Blue.
    pub blue: Definition,
    /// Green.
    pub green: Definition,
    /// Cyan.
    pub cyan: Definition,
    /// Red.
    pub red: Definition,
    /// Magenta.
    pub magenta: Definition,
    /// Yellow.
    pub yellow: Definition,
    /// White.
    pub white: Definition,
}

/// EGA palette with intensity.
#[derive(Debug, Clone, Copy)]
pub struct Ega {
    /// The dark colours.
    pub dark: Base,
    /// The bright colours.
    pub bright: Base,
}

/// The default EGA palette.
#[must_use]
pub fn ega() -> (palette: Ega)
    ensures
        palette == standard(),
{
    Ega {
        dark: Base {
            black: Definition::rgb(0x00, 0x00, 0x00),
            blue: Definition::rgb(0x00, 0x00, 0xAA),
            green: Definition::rgb(0x00, 0xAA, 0x00),
            cyan: Definition::rgb(0x00, 0xAA, 0xAA),
            red: Definition::rgb(0xAA, 0x00, 0x00),
            magenta: Definition::rgb(0xAA, 0x00, 0xAA),
            // Intentionally brown
            yellow: Definition::rgb(0xAA, 0x55, 0x00),
            white: Definition::rgb(0xAA, 0xAA, 0xAA),
        },
        bright: Base {
            black: Definition::rgb(0x55, 0x55, 0x55),
            blue: Definition::rgb(0x55, 0x55, 0xFF),
            green: Definition::rgb(0x55, 0xFF, 0x55),
            cyan: Definition::rgb(0x55, 0xFF, 0xFF),
            red: Definition::rgb(0xFF, 0x55, 0x55),
            magenta: Definition::rgb(0xFF, 0x55, 0xFF),
            yellow: Definition::rgb(0xFF, 0xFF, 0x55),
            white: Definition::rgb(0xFF, 0xFF, 0xFF),
        },
    }
}

/// The opaque colour with the given components.
pub open spec fn opaque(r: u8, g: u8, b: u8) -> Definition {
    Definition { r, g, b, a: 255 }
}

/// The colours of the default EGA palette.
pub open spec fn standard() -> Ega {
    Ega {
        dark: Base {
            black: opaque(0x00, 0x00, 0x00),
            blue: opaque(0x00, 0x00, 0xAA),
            green: opaque(0x00, 0xAA, 0x00),
            cyan: opaque(0x00, 0xAA, 0xAA),
            red: opaque(0xAA, 0x00, 0x00),
            magenta: opaque(0xAA, 0x00, 0xAA),
            yellow: opaque(0xAA, 0x55, 0x00),
            white: opaque(0xAA, 0xAA, 0xAA),
        },
        bright: Base {
            black: opaque(0x55, 0x55, 0x55),
            blue: opaque(0x55, 0x55, 0xFF),
            green: opaque(0x55, 0xFF, 0x55),
            cyan: opaque(0x55, 0xFF, 0xFF),
            red: opaque(0xFF, 0x55, 0x55),
            magenta: opaque(0xFF, 0x55, 0xFF),
            yellow: opaque(0xFF, 0xFF, 0x55),
            white: opaque(0xFF, 0xFF, 0xFF),
        },
    }
}

/// The base identifier set for EGA.
#[derive(Copy, Clone, Hash, Debug)]
pub enum BaseId {
    /// Black.
    Black,
    /// Blue.
    Blue,
    /// Green.
    Green,
    /// Cyan.
    Cyan,
    /// Red.
    Red,
    /// Magenta.
    Magenta,
    /// Yellow.
    Yellow,
    /// White.
    White,
}

/// Two base identifiers are equal where they name the same colour.
impl PartialEq for BaseId {
    fn eq(&self, other: &Self) -> (same: bool) {
        match (*self, *other) {
            (BaseId::Black, BaseId::Black) => true,
            (BaseId::Blue, BaseId::Blue) => true,
            (BaseId::Green, BaseId::Green) => true,
            (BaseId::Cyan, BaseId::Cyan) => true,
            (BaseId::Red, BaseId::Red) => true,
            (BaseId::Magenta, BaseId::Magenta) => true,
            (BaseId::Yellow, BaseId::Yellow) => true,
            (BaseId::White, BaseId::White) => true,
            _ => false,
        }
    }
}

impl PartialEqSpecImpl for BaseId {
    open spec fn obeys_eq_spec() -> bool {
        true
    }

    open spec fn eq_spec(&self, other: &Self) -> bool {
        *self == *other
    }
}

impl Eq for BaseId {

}

/// The default base identifier is white.
impl Default for BaseId {
    fn default() -> (id: Self)
        ensures
            id == BaseId::White,
    {
        BaseId::White
    }
}

/// The bright/dark identifier set for EGA.
#[derive(Copy, Clone, Hash, Debug)]
pub enum Id {
    /// A bright colour.
    Bright(BaseId),
    /// A dark colour.
    Dark(BaseId),
}

/// Two identifiers are equal where they name the same colour at the same intensity.
impl PartialEq for Id {
    fn eq(&self, other: &Self) -> (same: bool) {
        match (*self, *other) {
            (Id::Bright(this), Id::Bright(that)) => this == that,
            (Id::Dark(this), Id::Dark(that)) => this == that,
            _ => false,
        }
    }
}

impl PartialEqSpecImpl for Id {
    open spec fn obeys_eq_spec() -> bool {
        true
    }

    open spec fn eq_spec(&self, other: &Self) -> bool {
        *self == *other
    }
}

impl Eq for Id {

}

/// The default EGA identifier is bright white, as we assume that we're targeting foreground.
impl Default for Id {
    fn default() -> (id: Self)
        ensures
            id == Id::Bright(BaseId::White),
    {
        Id::Bright(BaseId::White)
    }
}

/// We can use [`Base`] as a colour map.
impl ResourceMap<Definition> for Base {
    type Id = BaseId;

    open spec fn is_reliable(&self) -> bool {
        true
    }

    open spec fn resource(&self, k: BaseId) -> Definition {
        match k {
            BaseId::Black => self.black,
            BaseId::Blue => self.blue,
            BaseId::Green => self.green,
            BaseId::Cyan => self.cyan,
            BaseId::Red => self.red,
            BaseId::Magenta => self.magenta,
            BaseId::Yellow => self.yellow,
            BaseId::White => self.white,
        }
    }

    fn get(&self, k: BaseId) -> (resource: &Definition) {
        match k {
            BaseId::Black => &self.black,
            BaseId::Blue => &self.blue,
            BaseId::Green => &self.green,
            BaseId::Cyan => &self.cyan,
            BaseId::Red => &self.red,
            BaseId::Magenta => &self.magenta,
            BaseId::Yellow => &self.yellow,
            BaseId::White => &self.white,
        }
    }
}

/// We can use [`Ega`] as a colour map.
impl ResourceMap<Definition> for Ega {
    type Id = Id;

    open spec fn is_reliable(&self) -> bool {
        true
    }

    open spec fn resource(&self, k: Id) -> Definition {
        match k {
            Id::Bright(k) => self.bright.resource(k),
            Id::Dark(k) => self.dark.resource(k),
        }
    }

    fn get(&self, k: Id) -> (resource: &Definition) {
        match k {
            Id::Bright(k) => self.bright.get(k),
            Id::Dark(k) => self.dark.get(k),
        }
    }
}

} // verus!
