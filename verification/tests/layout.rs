//! Tests of the layout engine.

use ugly::font::layout::{dry_run, layout, layout_with_alignment, Builder, Glyph, GlyphSet};
use ugly::font::metrics::{kerning, width, Metrics, Spec};
use ugly::metrics::anchor;
use ugly::metrics::point::{Delta, Point};
use ugly::metrics::rect::Rect;
use ugly::metrics::size::Size;

fn big_font() -> Metrics {
    Spec {
        char: Size { w: 9, h: 9 },
        pad: Size { w: 1, h: 1 },
        width_overrides: width::Spec::new(vec![("iI".to_string(), 1)]),
        kerning: kerning::Spec::default(),
    }
    .into_metrics()
    .unwrap()
}

/// A font whose characters are all `w` wide.
fn uniform_font(w: i32) -> Metrics {
    Spec {
        char: Size { w, h: 12 },
        pad: Size { w: 2, h: 3 },
        width_overrides: width::Spec::default(),
        kerning: kerning::Spec::default(),
    }
    .into_metrics()
    .unwrap()
}

fn kerned_font() -> Metrics {
    Spec {
        char: Size { w: 8, h: 10 },
        pad: Size { w: 1, h: 2 },
        width_overrides: width::Spec::new(vec![("i".to_string(), 2)]),
        kerning: kerning::Spec {
            left: vec![("slant".to_string(), "AV".to_string())],
            right: vec![("slant".to_string(), "VA".to_string())],
            pairs: vec![(("slant".to_string(), "slant".to_string()), -3)],
        },
    }
    .into_metrics()
    .unwrap()
}

/// The places of the glyph of `c` in `glyphs`.
fn places(font: &Metrics, glyphs: &GlyphSet, c: char) -> Vec<Delta> {
    let src = Rect {
        top_left: font.glyph_top_left(c),
        size: Size {
            w: font.span_w_char(c),
            h: font.char.h,
        },
    };
    let found: Vec<&Glyph> = glyphs.iter().iter().filter(|g| g.src == src).collect();
    assert!(found.len() <= 1, "a source rectangle has one glyph at most");
    found.first().map(|g| g.dsts.clone()).unwrap_or_default()
}

fn delta(dx: i32, dy: i32) -> Delta {
    Delta { dx, dy }
}

#[test]
fn icing_measures_33() {
    let font = big_font();
    assert_eq!(Rect::new(0, 0, 33, 9), dry_run(&font, "Icing"));
    assert_eq!(
        Size { w: 33, h: 9 },
        layout(&font, "Icing".to_string(), Point::default()).bounds.size
    );
}

#[test]
fn empty_string_has_zero_bounds_and_no_glyphs() {
    let font = big_font();
    let pos = Point { x: 7, y: 9 };
    let laid_out = layout(&font, String::new(), pos);
    assert_eq!("", laid_out.string);
    assert_eq!(Size { w: 0, h: 0 }, laid_out.bounds.size);
    assert!(laid_out.glyphs.iter().is_empty());

    let built = Builder::new(&font).build(String::new());
    assert_eq!(Rect::default(), built.bounds);
    assert!(built.glyphs.iter().is_empty());
    assert_eq!(Rect::default(), dry_run(&font, ""));
}

#[test]
fn layout_keeps_the_string_and_starts_where_it_is_told() {
    let font = big_font();
    let pos = Point { x: 7, y: -9 };
    let laid_out = layout(&font, "Icing".to_string(), pos);
    assert_eq!("Icing", laid_out.string);
    assert_eq!(Rect::new(7, -9, 33, 9), laid_out.bounds);
}

#[test]
fn dry_run_agrees_with_layout() {
    let fonts = [big_font(), uniform_font(5), kerned_font(), Metrics::default()];
    let strings = [
        "",
        "Icing",
        "foo\nbar",
        "AVA\niii\n\nVAVAVA",
        "ab\rcd\nef",
        "\n\n",
        "コーヒー\nicing",
    ];
    for font in &fonts {
        for s in strings {
            let measured = dry_run(font, s);
            assert_eq!(Point::default(), measured.top_left);
            assert_eq!(
                measured.size,
                layout(font, s.to_string(), Point::default()).bounds.size
            );
            assert_eq!(
                measured.size,
                layout_with_alignment(font, s.to_string(), anchor::X::Right)
                    .bounds
                    .size
            );
        }
    }
}

#[test]
fn lines_stack_under_each_other() {
    let w = 7;
    let font = uniform_font(w);
    let bounds = dry_run(&font, "foo\nbar");
    // Two lines of char.h + pad.h, less the padding under the last line.
    assert_eq!(2 * (12 + 3) - 3, bounds.size.h);
    assert_eq!(font.span_w_str("foo").max(font.span_w_str("bar")), bounds.size.w);
    assert_eq!(3 * w + 2 * 2, bounds.size.w);

    let bounds = dry_run(&font, "a\nfoo\nhello");
    assert_eq!(12 + 2 * 15, bounds.size.h);
    assert_eq!(5 * w + 4 * 2, bounds.size.w);
}

#[test]
fn lines_without_width_are_skipped() {
    let font = uniform_font(7);
    assert_eq!(dry_run(&font, "foo\nbar"), dry_run(&font, "\nfoo\n\n\nbar\n\n"));
}

#[test]
fn glyphs_advance_by_width_and_padding() {
    let font = big_font();
    let laid_out = layout(&font, "Icing".to_string(), Point::default());
    // I is 1 wide, c is 9, i is 1, n is 9, and each is followed by 1 of padding.
    assert_eq!(vec![delta(0, 0)], places(&font, &laid_out.glyphs, 'I'));
    assert_eq!(vec![delta(2, 0)], places(&font, &laid_out.glyphs, 'c'));
    assert_eq!(vec![delta(12, 0)], places(&font, &laid_out.glyphs, 'i'));
    assert_eq!(vec![delta(14, 0)], places(&font, &laid_out.glyphs, 'n'));
    assert_eq!(vec![delta(24, 0)], places(&font, &laid_out.glyphs, 'g'));
    assert_eq!(5, laid_out.glyphs.iter().len());
}

#[test]
fn repeated_characters_share_a_glyph() {
    let font = uniform_font(5);
    let laid_out = layout(&font, "abab\nba".to_string(), Point::default());
    assert_eq!(
        vec![delta(0, 0), delta(14, 0), delta(7, 15)],
        places(&font, &laid_out.glyphs, 'a')
    );
    assert_eq!(
        vec![delta(7, 0), delta(21, 0), delta(0, 15)],
        places(&font, &laid_out.glyphs, 'b')
    );
    assert_eq!(2, laid_out.glyphs.iter().len());
}

#[test]
fn the_source_of_a_glyph_is_its_cell_at_its_width() {
    let font = big_font();
    let laid_out = layout(&font, "i".to_string(), Point::default());
    let glyphs = laid_out.glyphs.iter();
    assert_eq!(1, glyphs.len());
    // 'i' is code 105: column 9, row 3, in cells of 10 by 10.
    assert_eq!(Rect::new(90, 30, 1, 9), glyphs[0].src);
    assert_eq!(vec![delta(0, 0)], glyphs[0].dsts);
}

#[test]
fn kerning_pairs_replace_the_padding() {
    let font = kerned_font();
    // A then V is kerned to -3; V then i has the padding of 1; i is 2 wide.
    let laid_out = layout(&font, "AVi".to_string(), Point::default());
    assert_eq!(vec![delta(0, 0)], places(&font, &laid_out.glyphs, 'A'));
    assert_eq!(vec![delta(5, 0)], places(&font, &laid_out.glyphs, 'V'));
    assert_eq!(vec![delta(14, 0)], places(&font, &laid_out.glyphs, 'i'));
    assert_eq!(Size { w: 16, h: 10 }, laid_out.bounds.size);
}

#[test]
fn a_carriage_return_resets_the_cursor_and_the_kerning() {
    let font = kerned_font();
    let laid_out = layout(&font, "A\rV".to_string(), Point::default());
    assert_eq!(vec![delta(0, 0)], places(&font, &laid_out.glyphs, 'A'));
    assert_eq!(vec![delta(0, 0)], places(&font, &laid_out.glyphs, 'V'));
    // The line keeps the width of what was laid out before the carriage return.
    assert_eq!(Size { w: 16, h: 10 }, laid_out.bounds.size);
}

#[test]
fn right_alignment_moves_short_lines_to_the_right() {
    let font = uniform_font(5);
    let text = "a\nabc\nab";
    let left = layout(&font, text.to_string(), Point::default());
    let right = layout_with_alignment(&font, text.to_string(), anchor::X::Right);
    assert_eq!(Size { w: 19, h: 42 }, right.bounds.size);
    assert_eq!(left.bounds, right.bounds);

    assert_eq!(
        vec![delta(0, 0), delta(0, 15), delta(0, 30)],
        places(&font, &left.glyphs, 'a')
    );
    assert_eq!(
        vec![delta(14, 0), delta(0, 15), delta(7, 30)],
        places(&font, &right.glyphs, 'a')
    );
    assert_eq!(
        vec![delta(7, 15), delta(14, 30)],
        places(&font, &right.glyphs, 'b')
    );
    assert_eq!(vec![delta(14, 15)], places(&font, &right.glyphs, 'c'));
}

#[test]
fn right_aligned_lines_end_at_the_right_edge() {
    let font = kerned_font();
    let text = "AVA\niii\nVAVAVA i";
    let laid_out = layout_with_alignment(&font, text.to_string(), anchor::X::Right);
    let total = laid_out.bounds.size.w;
    for (row, line) in text.lines().enumerate() {
        let last = line.chars().last().unwrap();
        let dy = 12 * row as i32;
        let on_row: Vec<Delta> = places(&font, &laid_out.glyphs, last)
            .into_iter()
            .filter(|d| d.dy == dy)
            .collect();
        assert_eq!(
            total - font.span_w_char(last),
            on_row.iter().map(|d| d.dx).max().unwrap()
        );
    }
}

#[test]
fn left_is_the_default_alignment() {
    let font = uniform_font(5);
    let text = "a\nabc";
    let plain = Builder::new(&font).build(text.to_string());
    let left = Builder::new(&font)
        .with_alignment(anchor::X::Left)
        .build(text.to_string());
    assert_eq!(plain, left);
    assert_eq!(plain, layout_with_alignment(&font, text.to_string(), anchor::X::Left));
}

#[test]
fn builder_dry_run_measures() {
    let font = big_font();
    assert_eq!(Rect::new(0, 0, 33, 9), Builder::new(&font).dry_run("Icing"));
    assert_eq!(
        Rect::new(0, 0, 33, 19),
        Builder::new(&font)
            .with_alignment(anchor::X::Right)
            .dry_run("Icing\nci")
    );
}

#[test]
fn a_copy_of_a_layout_is_equal_to_it() {
    let font = big_font();
    let laid_out = layout(&font, "Icing icing".to_string(), Point { x: 1, y: 2 });
    assert_eq!(laid_out, laid_out.clone());
}

#[test]
fn default_layout_is_empty() {
    let laid_out = ugly::font::layout::String::default();
    assert_eq!("", laid_out.string);
    assert_eq!(Rect::default(), laid_out.bounds);
    assert!(laid_out.glyphs.iter().is_empty());
    assert!(GlyphSet::default().iter().is_empty());
}

#[test]
fn glyph_sets_are_equal_whatever_the_order_of_their_glyphs() {
    let font = uniform_font(5);
    // Both strings put an a and a b at the left edge, in different orders.
    let one = layout(&font, "a\rb".to_string(), Point::default());
    let other = layout(&font, "b\ra".to_string(), Point::default());
    assert_ne!(one.glyphs.iter()[0].src, other.glyphs.iter()[0].src);
    assert_eq!(one.glyphs, other.glyphs);
    assert_ne!(one, other);

    let third = layout(&font, "a\rc".to_string(), Point::default());
    assert_ne!(one.glyphs, third.glyphs);
    let fourth = layout(&font, "a\rbb".to_string(), Point::default());
    assert_ne!(one.glyphs, fourth.glyphs);
    assert_ne!(fourth.glyphs, one.glyphs);
    let fifth = layout(&font, "ab".to_string(), Point::default());
    assert_ne!(one.glyphs, fifth.glyphs);
}

#[test]
fn metrics_can_be_copied() {
    let font = kerned_font();
    let copy = font.clone();
    assert_eq!(dry_run(&font, "AVi\niVA"), dry_run(&copy, "AVi\niVA"));
    assert_eq!(
        layout(&font, "AVコi".to_string(), Point::default()),
        layout(&copy, "AVコi".to_string(), Point::default())
    );
}
