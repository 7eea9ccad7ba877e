//! Tests of the character tables.

use ugly::font::metrics::chars::{Entry, Subtable, Table};
use ugly::font::metrics::{kerning, width};
use ugly::font::Error;

#[test]
fn subtable_get_ascii() {
    let mut t = Subtable::new();
    t.insert('a', 12);
    t.insert('b', 39);
    assert_eq!(Some(&12), t.get('a'));
    assert_eq!(Some(&39), t.get('b'));
}

#[test]
fn subtable_get_non_ascii() {
    let mut t = Subtable::new();
    t.insert('コ', 12);
    t.insert('ヒ', 39);
    assert_eq!(Some(&12), t.get('コ'));
    assert_eq!(Some(&39), t.get('ヒ'));
}

#[test]
fn subtable_get_what_is_missing() {
    let mut t = Subtable::new();
    t.insert('a', 12);
    t.insert('コ', 39);
    assert_eq!(None, t.get('b'));
    assert_eq!(None, t.get('ヒ'));
    assert_eq!(None, t.get('\u{7f}'));
    assert_eq!(None, t.get('\u{80}'));
}

#[test]
fn subtable_insert_replaces() {
    let mut t = Subtable::new();
    t.insert('a', 12);
    t.insert('a', 13);
    t.insert('コ', 39);
    t.insert('コ', 40);
    assert_eq!(Some(&13), t.get('a'));
    assert_eq!(Some(&40), t.get('コ'));
}

#[test]
fn subtable_get_mut_writes_through() {
    let mut t = Subtable::new();
    t.insert('a', 12);
    t.insert('コ', 39);
    *t.get_mut('a').unwrap() += 1;
    *t.get_mut('コ').unwrap() += 2;
    assert!(t.get_mut('b').is_none());
    assert!(t.get_mut('ヒ').is_none());
    assert_eq!(Some(&13), t.get('a'));
    assert_eq!(Some(&41), t.get('コ'));
}

#[test]
fn subtable_remove_takes_the_value() {
    let mut t = Subtable::new();
    t.insert('a', 12);
    t.insert('コ', 39);
    assert_eq!(Some(12), t.remove('a'));
    assert_eq!(None, t.remove('a'));
    assert_eq!(Some(39), t.remove('コ'));
    assert_eq!(None, t.remove('コ'));
    assert_eq!(None, t.get('a'));
    assert_eq!(None, t.get('コ'));
}

#[test]
fn subtable_keys_lists_each_character_once() {
    let mut t = Subtable::new();
    t.insert('b', 1);
    t.insert('ヒ', 2);
    t.insert('a', 3);
    t.insert('コ', 4);
    t.insert('a', 5);
    t.insert('\u{7f}', 6);
    t.insert('\u{80}', 7);
    let mut keys = t.keys();
    keys.sort();
    assert_eq!(vec!['a', 'b', '\u{7f}', '\u{80}', 'コ', 'ヒ'], keys);
}

#[test]
fn default_subtable_is_empty() {
    let t: Subtable<i32> = Subtable::default();
    assert_eq!(None, t.get('a'));
    assert!(t.keys().is_empty());
}

#[test]
fn entry_kerning_prefers_the_table() {
    let mut rights = Subtable::new();
    rights.insert('V', -2);
    let entry = Entry {
        width: 7,
        rights: Some(rights),
        default_kerning: 1,
    };
    assert_eq!(-2, entry.kerning('V'));
    assert_eq!(1, entry.kerning('A'));

    let plain = Entry {
        width: 7,
        rights: None,
        default_kerning: 3,
    };
    assert_eq!(3, plain.kerning('V'));
}

#[test]
fn default_entry_is_zeroed() {
    let entry = Entry::default();
    assert_eq!(0, entry.width);
    assert!(entry.rights.is_none());
    assert_eq!(0, entry.default_kerning);
}

#[test]
fn default_table_maps_everything_to_zero() {
    let table = Table::default();
    for c in ['a', 'コ', '\n'] {
        assert_eq!(0, table.get(c).width);
        assert_eq!(0, table.get(c).kerning('b'));
    }
}

fn classes(of: &[(&str, &str)]) -> Vec<(String, String)> {
    of.iter()
        .map(|(name, chars)| (name.to_string(), chars.to_string()))
        .collect()
}

fn pairs(of: &[(&str, &str, i32)]) -> Vec<((String, String), i32)> {
    of.iter()
        .map(|(l, r, length)| ((l.to_string(), r.to_string()), *length))
        .collect()
}

fn overrides(of: &[(&str, i32)]) -> width::Spec {
    width::Spec::new(of.iter().map(|(c, w)| (c.to_string(), *w)).collect())
}

#[test]
fn table_compiles_widths_and_kerning() {
    let kerning = kerning::Spec {
        left: classes(&[("slant", "AVコ"), ("round", "o")]),
        right: classes(&[("slant", "VA"), ("stem", "lコ")]),
        pairs: pairs(&[("slant", "slant", -1), ("round", "stem", 0)]),
    };
    let table = Table::new(overrides(&[("il", 2), ("コ", 8)]), 9, kerning, 1).unwrap();

    // Untouched characters have the default entry.
    let x = table.get('x');
    assert_eq!(9, x.width);
    assert!(x.rights.is_none());
    assert_eq!(1, x.default_kerning);

    // Width overrides alone.
    assert_eq!(2, table.get('i').width);
    assert!(table.get('i').rights.is_none());
    assert_eq!(1, table.get('i').kerning('V'));

    // Kerning alone: the pair replaces the default spacing, in one direction only.
    assert_eq!(9, table.get('A').width);
    assert_eq!(-1, table.get('A').kerning('V'));
    assert_eq!(-1, table.get('V').kerning('A'));
    assert_eq!(-1, table.get('A').kerning('A'));
    assert_eq!(1, table.get('A').kerning('o'));
    assert_eq!(0, table.get('o').kerning('l'));
    assert_eq!(1, table.get('l').kerning('o'));

    // Both, on a character beyond ASCII.
    assert_eq!(8, table.get('コ').width);
    assert_eq!(-1, table.get('コ').kerning('V'));
    assert_eq!(0, table.get('o').kerning('コ'));
    assert_eq!(1, table.get('コ').kerning('コ'));
}

#[test]
fn later_overrides_and_pairs_win() {
    let kerning = kerning::Spec {
        left: classes(&[("a", "a"), ("ab", "ab")]),
        right: classes(&[("x", "x"), ("xy", "xy")]),
        pairs: pairs(&[("ab", "xy", 5), ("a", "x", 7)]),
    };
    let table = Table::new(overrides(&[("ab", 3), ("b", 4)]), 9, kerning, 1).unwrap();
    assert_eq!(3, table.get('a').width);
    assert_eq!(4, table.get('b').width);
    assert_eq!(7, table.get('a').kerning('x'));
    assert_eq!(5, table.get('a').kerning('y'));
    assert_eq!(5, table.get('b').kerning('x'));
    assert_eq!(5, table.get('b').kerning('y'));
}

#[test]
fn table_rejects_a_missing_class() {
    let kerning = kerning::Spec {
        left: classes(&[("slant", "AV")]),
        right: classes(&[("slant", "VA")]),
        pairs: pairs(&[("slant", "slant", -1), ("slant", "stem", 0), ("round", "stem", 0)]),
    };
    match Table::new(overrides(&[("il", 20)]), 9, kerning, 1) {
        Err(Error::Kerning(kerning::Error::MissingClass { dir, class })) => {
            assert_eq!(kerning::Direction::Right, dir);
            assert_eq!("stem", class);
        }
        other => panic!("expected a missing class, got {:?}", other.map(|_| ())),
    }
}

#[test]
fn table_rejects_an_overly_large_override() {
    match Table::new(
        overrides(&[("a", 9), ("il", 10), ("m", 12)]),
        9,
        kerning::Spec::default(),
        1,
    ) {
        Err(Error::OverlyLargeOverride {
            grid_width,
            override_width,
        }) => {
            assert_eq!(9, grid_width);
            assert_eq!(10, override_width);
        }
        other => panic!("expected an overly large override, got {:?}", other.map(|_| ())),
    }
}

#[test]
fn kerning_map_spacing() {
    let spec = kerning::Spec {
        left: classes(&[("slant", "AV")]),
        right: classes(&[("slant", "VA")]),
        pairs: pairs(&[("slant", "slant", -1)]),
    };
    let map = spec.into_map(2).unwrap();
    assert_eq!(-1, map.spacing('A', 'V'));
    assert_eq!(-1, map.spacing('V', 'V'));
    assert_eq!(2, map.spacing('A', 'x'));
    assert_eq!(2, map.spacing('x', 'A'));
}

#[test]
fn kerning_map_the_left_class_is_looked_up_first() {
    let spec = kerning::Spec {
        left: classes(&[]),
        right: classes(&[]),
        pairs: pairs(&[("l", "r", -1)]),
    };
    assert_eq!(
        Some(kerning::Error::MissingClass {
            dir: kerning::Direction::Left,
            class: "l".to_string()
        }),
        spec.into_map(2).err()
    );
}

#[test]
fn kerning_classes_of_a_later_definition_count() {
    let spec = kerning::Spec {
        left: classes(&[("l", "a"), ("l", "b")]),
        right: classes(&[("r", "x")]),
        pairs: pairs(&[("l", "r", -1)]),
    };
    let map = spec.into_map(2).unwrap();
    assert_eq!(2, map.spacing('a', 'x'));
    assert_eq!(-1, map.spacing('b', 'x'));
}

#[test]
fn width_map_get() {
    let map = overrides(&[("iI", 1), ("m", 9)]).into_map(9).unwrap();
    assert_eq!(1, map.get('i'));
    assert_eq!(1, map.get('I'));
    assert_eq!(9, map.get('m'));
    assert_eq!(9, map.get('x'));
}

#[test]
fn width_of_an_empty_class_is_checked_too() {
    assert!(matches!(
        overrides(&[("", 10)]).into_map(9),
        Err(Error::OverlyLargeOverride {
            grid_width: 9,
            override_width: 10
        })
    ));
}
