//! Tests of colour definitions and palettes.

use ugly::colour::ega::{ega, BaseId, Id};
use ugly::colour::{Definition, MapSet};
use ugly::resource::ResourceMap;

#[test]
fn rgba_sets_every_byte() {
    let col = Definition::rgba(12, 34, 56, 127);
    assert_eq!(12, col.red_byte());
    assert_eq!(34, col.green_byte());
    assert_eq!(56, col.blue_byte());
    assert_eq!(127, col.alpha_byte());
}

#[test]
fn rgb_is_opaque() {
    let col = Definition::rgb(12, 34, 56);
    assert_eq!(12, col.red_byte());
    assert_eq!(34, col.green_byte());
    assert_eq!(56, col.blue_byte());
    assert_eq!(255, col.alpha_byte());
    assert!(!col.is_transparent());
}

#[test]
fn transparent_is_transparent_black() {
    let col = Definition::transparent();
    assert_eq!(0, col.red_byte());
    assert_eq!(0, col.green_byte());
    assert_eq!(0, col.blue_byte());
    assert_eq!(0, col.alpha_byte());
    assert!(col.is_transparent());
    assert_eq!(col, Definition::default());
    assert!(Definition::rgba(1, 2, 3, 0).is_transparent());
}

#[test]
fn ega_palette() {
    let palette = ega();
    assert_eq!(Definition::rgb(0xAA, 0x55, 0x00), *palette.get(Id::Dark(BaseId::Yellow)));
    assert_eq!(Definition::rgb(0xFF, 0xFF, 0x55), *palette.get(Id::Bright(BaseId::Yellow)));
    assert_eq!(Definition::rgb(0x00, 0x00, 0x00), *palette.get(Id::Dark(BaseId::Black)));
    assert_eq!(Definition::rgb(0x55, 0x55, 0x55), *palette.get(Id::Bright(BaseId::Black)));
    assert_eq!(Definition::rgb(0xFF, 0xFF, 0xFF), *palette.get(Id::default()));
    assert_eq!(Definition::rgb(0x00, 0xAA, 0xAA), *palette.dark.get(BaseId::Cyan));
    assert_eq!(Definition::rgb(0xFF, 0x55, 0xFF), *palette.bright.get(BaseId::Magenta));
    assert_eq!(Definition::rgb(0x55, 0xFF, 0x55), *palette.bright.get(BaseId::Green));
    assert_eq!(Definition::rgb(0xAA, 0x00, 0x00), *palette.dark.get(BaseId::Red));
    assert_eq!(Definition::rgb(0x00, 0x00, 0xAA), *palette.dark.get(BaseId::Blue));
    assert_eq!(Definition::rgb(0xAA, 0xAA, 0xAA), *palette.dark.get(BaseId::default()));
}

#[test]
fn map_set_holds_two_maps() {
    let set = MapSet { fg: ega(), bg: ega().dark };
    assert_eq!(Definition::rgb(0xFF, 0x55, 0x55), *set.fg.get(Id::Bright(BaseId::Red)));
    assert_eq!(Definition::rgb(0xAA, 0x00, 0x00), *set.bg.get(BaseId::Red));
}

#[test]
fn ega_identifiers_compare_by_colour_and_intensity() {
    let all = [
        BaseId::Black,
        BaseId::Blue,
        BaseId::Green,
        BaseId::Cyan,
        BaseId::Red,
        BaseId::Magenta,
        BaseId::Yellow,
        BaseId::White,
    ];
    for (i, this) in all.iter().enumerate() {
        for (j, that) in all.iter().enumerate() {
            assert_eq!(i == j, this == that);
            assert_eq!(i == j, Id::Bright(*this) == Id::Bright(*that));
            assert_eq!(i == j, Id::Dark(*this) == Id::Dark(*that));
            assert_ne!(Id::Bright(*this), Id::Dark(*that));
            assert_ne!(Id::Dark(*this), Id::Bright(*that));
        }
    }
}
