//! Tests of the text writer.

use std::collections::HashMap;

use ugly::font;
use ugly::metrics;
use ugly::metrics::anchor;
use ugly::render::{logger, Renderer};
use ugly::resource::DefaultingHashMap;
use ugly::text::Writer;

#[test]
fn layout_hello_world() {
    let mut met = font::Metrics::default();
    met.char.w = 8;
    met.char.h = 14;

    let metrics = DefaultingHashMap::new(HashMap::<(), _>::new(), met);

    let mut writer = Writer::<(), ()>::default();

    let mut r: logger::Logger<(), (), ()> = logger::Logger::default();

    let tl1 = metrics::Point { x: 20, y: 10 };

    r.clear(()).unwrap();
    // Testing repeated cached layouting.
    for _ in 0..2 {
        writer.move_to(tl1);
        writer.set_string("hello, world");
        writer.layout(&metrics);

        writer.render(&mut r).unwrap();
    }
    r.present();

    for c in r.log.drain(0..) {
        if let logger::Command::Write(_, _, s) = c {
            assert_eq!(s.string, "hello, world");
            assert_eq!(s.bounds.top_left, tl1);
        }
    }

    // Now we're moving and renaming, which will invalidate the cache.
    let tl2 = metrics::Point { x: 10, y: 20 };
    writer.move_to(tl2);
    writer.set_string("how's it going?");
    writer.layout(&metrics);

    r.clear(()).unwrap();
    writer.render(&mut r).unwrap();
    r.present();

    for c in r.log.drain(0..) {
        if let logger::Command::Write(_, _, s) = c {
            assert_eq!(s.string, "how's it going?");
            assert_eq!(s.bounds.top_left, tl2);
        }
    }
}

fn big_font() -> font::Metrics {
    font::metrics::Spec {
        char: metrics::Size { w: 9, h: 9 },
        pad: metrics::Size { w: 1, h: 1 },
        width_overrides: font::metrics::width::Spec::new(vec![("iI".to_string(), 1)]),
        kerning: font::metrics::kerning::Spec::default(),
    }
    .into_metrics()
    .unwrap()
}

fn written(writer: &Writer<u8, u8>) -> font::layout::String {
    let mut r: logger::Logger<u8, u8, u8> = logger::Logger::default();
    writer.render(&mut r).unwrap();
    match r.log.pop() {
        Some(logger::Command::Write(_, _, s)) => s,
        other => panic!("expected a write, got {:?}", other),
    }
}

#[test]
fn writer_starts_at_the_origin_aligned_left() {
    let writer = Writer::new(3u8, 4u8);
    assert_eq!(metrics::Point { x: 0, y: 0 }, writer.pos());
    assert_eq!(anchor::X::Left, writer.alignment());
    let s = written(&writer);
    assert_eq!("", s.string);
    assert_eq!(metrics::Rect::default(), s.bounds);
    assert!(s.glyphs.iter().is_empty());
}

#[test]
fn writer_renders_with_its_font_and_colour() {
    let mut writer = Writer::new(3u8, 4u8);
    writer.set_font(5);
    writer.set_fg(6);
    let mut r: logger::Logger<u8, u8, u8> = logger::Logger::default();
    writer.render(&mut r).unwrap();
    assert!(matches!(r.log[0], logger::Command::Write(5, 6, _)));
}

#[test]
fn writer_lays_out_at_its_position() {
    let metrics = DefaultingHashMap::new(HashMap::<u8, _>::new(), big_font());
    let mut writer = Writer::new(0u8, 0u8);
    writer.move_to(metrics::Point { x: 100, y: 50 });
    writer.set_string("Icing");
    writer.layout(&metrics);
    let s = written(&writer);
    assert_eq!(metrics::Rect::new(100, 50, 33, 9), s.bounds);
}

#[test]
fn writer_right_alignment_puts_the_right_edge_at_its_position() {
    let metrics = DefaultingHashMap::new(HashMap::<u8, _>::new(), big_font());
    let mut writer = Writer::new(0u8, 0u8);
    writer.move_to(metrics::Point { x: 100, y: 50 });
    writer.align_to(anchor::X::Right);
    assert_eq!(anchor::X::Right, writer.alignment());
    writer.set_string("Icing");
    writer.layout(&metrics);
    let s = written(&writer);
    assert_eq!(metrics::Rect::new(67, 50, 33, 9), s.bounds);

    // Moving the writer moves the layout along.
    writer.move_to(metrics::Point { x: 40, y: 60 });
    let s = written(&writer);
    assert_eq!(metrics::Rect::new(7, 60, 33, 9), s.bounds);
}

#[test]
fn writer_reuses_its_layout_until_the_string_changes() {
    let narrow = DefaultingHashMap::new(HashMap::<u8, _>::new(), big_font());
    let wide = DefaultingHashMap::new(HashMap::<u8, _>::new(), {
        let mut font = big_font();
        font.char.h = 20;
        font
    });
    let mut writer = Writer::new(0u8, 0u8);
    writer.set_string("Icing");
    writer.layout(&narrow);
    assert_eq!(metrics::Size { w: 33, h: 9 }, written(&writer).bounds.size);

    // The same string again: the layout stays as it is, whatever the metrics.
    writer.set_string("Icing");
    writer.layout(&wide);
    assert_eq!(metrics::Size { w: 33, h: 9 }, written(&writer).bounds.size);

    // Another string: the layout is made anew.
    writer.set_string("icing");
    writer.layout(&wide);
    assert_eq!(metrics::Size { w: 33, h: 20 }, written(&writer).bounds.size);

    // Another alignment: the layout is made anew.
    writer.align_to(anchor::X::Right);
    writer.layout(&narrow);
    assert_eq!(metrics::Size { w: 33, h: 9 }, written(&writer).bounds.size);
}

#[test]
fn logger_logs_in_order() {
    let mut r: logger::Logger<u8, u8, u8> = logger::Logger::default();
    r.clear(1).unwrap();
    r.fill(metrics::Rect::new(1, 2, 3, 4), 2).unwrap();
    r.present();
    assert_eq!(
        vec![
            logger::Command::Clear(1),
            logger::Command::Fill(metrics::Rect::new(1, 2, 3, 4), 2),
            logger::Command::Present
        ],
        r.log
    );
}
