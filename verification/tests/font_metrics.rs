//! Tests of font metrics.

use ugly::font::metrics::{glyph_col, glyph_row, kerning, width, Metrics, Spec};
use ugly::metrics::anchor;
use ugly::metrics::point::Point;
use ugly::metrics::size::Size;

fn big_font() -> Metrics {
    Spec {
        char: Size { w: 9, h: 9 },
        pad: Size { w: 1, h: 1 },
        width_overrides: width::Spec::new(vec![("iI".to_string(), 1)]),
        kerning: kerning::Spec::default(),
    }
    .into_metrics()
    .expect("should not fail to expand metrics")
}

/// Tests that the X co-ordinate of `glyph_top_left` works correctly without
/// overflow on a big bitmap.
#[test]
fn glyph_x_overflow() {
    assert_eq!(big_font().glyph_top_left(char::from(31)).x, 310);
}

/// Tests that the Y co-ordinate of `glyph_top_left` works correctly without
/// overflow on a big bitmap.
#[test]
fn glyph_y_overflow() {
    assert_eq!(big_font().glyph_top_left(char::from(255)).y, 70);
}

/// Tests that `span_w_str` appears to handle overrides properly.
#[test]
fn span_w_str_overrides() {
    // 3*9 normal + 2*1 overrides + 4*1 padding
    assert_eq!(big_font().span_w_str("Icing"), 33)
}

#[test]
fn glyph_grid_addressing() {
    let font = big_font();
    for code in 0..=255u8 {
        let c = char::from(code);
        let expected = Point {
            x: i32::from(code % 32) * 10,
            y: i32::from(code / 32) * 10,
        };
        assert_eq!(expected, font.glyph_top_left(c));
        assert_eq!(code % 32, glyph_col(code));
        assert_eq!(code / 32, glyph_row(code));
    }
}

#[test]
fn glyphs_beyond_the_grid_share_the_first_cell() {
    let font = big_font();
    assert_eq!(Point { x: 0, y: 0 }, font.glyph_top_left('\u{100}'));
    assert_eq!(Point { x: 0, y: 0 }, font.glyph_top_left('コ'));
}

#[test]
fn glyph_grid_on_a_large_font() {
    let font = Spec {
        char: Size {
            w: 1_000_000,
            h: 2_000_000,
        },
        pad: Size { w: 10, h: 20 },
        width_overrides: width::Spec::default(),
        kerning: kerning::Spec::default(),
    }
    .into_metrics()
    .unwrap();
    assert_eq!(
        Point {
            x: 31 * 1_000_010,
            y: 7 * 2_000_020
        },
        font.glyph_top_left(char::from(255))
    );
}

#[test]
fn padded_sizes_and_spans() {
    let font = big_font();
    assert_eq!(10, font.padded_w());
    assert_eq!(10, font.padded_h());
    assert_eq!(30, font.span_w(3));
    assert_eq!(-20, font.span_w(-2));
    assert_eq!(40, font.span_h(4));
    assert_eq!(-10, font.span_h(-1));
    assert_eq!(Size { w: 120, h: 20 }, font.text_size(12, 2));
}

#[test]
fn span_w_char_knows_overrides() {
    let font = big_font();
    assert_eq!(1, font.span_w_char('i'));
    assert_eq!(1, font.span_w_char('I'));
    assert_eq!(9, font.span_w_char('c'));
    assert_eq!(9, font.span_w_char('コ'));
}

#[test]
fn span_w_str_of_nothing_is_zero() {
    assert_eq!(0, big_font().span_w_str(""));
}

#[test]
fn span_w_str_of_lines_is_that_of_the_widest() {
    // "ci" is 9 + 1 + 1 wide, "Icing" is 33 wide.
    assert_eq!(33, big_font().span_w_str("ci\nIcing\ni"));
}

#[test]
fn x_anchor_of_str() {
    let font = big_font();
    assert_eq!(0, font.x_anchor_of_str("Icing", anchor::X::Left));
    assert_eq!(33, font.x_anchor_of_str("Icing", anchor::X::Right));
}

#[test]
fn default_metrics_are_zeroed() {
    let font = Metrics::default();
    assert_eq!(Size { w: 0, h: 0 }, font.char);
    assert_eq!(Size { w: 0, h: 0 }, font.pad);
    assert_eq!(0, font.span_w_char('a'));
    assert_eq!(0, font.span_w_str("abc"));
}

#[test]
fn default_spec_expands_to_default_metrics() {
    let font = Spec::default().into_metrics().unwrap();
    assert_eq!(Size { w: 0, h: 0 }, font.char);
    assert_eq!(Size { w: 0, h: 0 }, font.pad);
    assert_eq!(0, font.chars.get('a').width);
}
