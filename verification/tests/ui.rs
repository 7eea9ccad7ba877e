//! Tests of the label widget.

use std::collections::HashMap;

use ugly::font::metrics::{kerning, width, Metrics, Spec};
use ugly::metrics::anchor;
use ugly::metrics::{Point, Rect, Size};
use ugly::render::logger::{Command, Logger};
use ugly::resource::DefaultingHashMap;
use ugly::text::Writer;
use ugly::ui::layout::{Boundable, LayoutContext};
use ugly::ui::widgets::Label;
use ugly::ui::{Layoutable, Renderable, Updatable};

/// A layout context that holds font metrics and nothing else.
struct Context {
    metrics: DefaultingHashMap<u8, Metrics>,
}

impl LayoutContext<u8> for Context {
    type MetricsMap = DefaultingHashMap<u8, Metrics>;

    fn font_metrics(&self) -> &Self::MetricsMap {
        &self.metrics
    }
}

fn font(w: i32, h: i32) -> Metrics {
    Spec {
        char: Size { w, h },
        pad: Size { w: 1, h: 2 },
        width_overrides: width::Spec::new(vec![("i".to_string(), 1)]),
        kerning: kerning::Spec::default(),
    }
    .into_metrics()
    .unwrap()
}

fn context() -> Context {
    let mut fonts = HashMap::new();
    fonts.insert(1u8, font(9, 11));
    Context {
        metrics: DefaultingHashMap::new(fonts, font(5, 7)),
    }
}

fn rendered(label: &Label<u8, u8, u8>) -> Vec<Command<u8, u8, u8>> {
    let mut r: Logger<u8, u8, u8> = Logger::default();
    label.render(&mut r).unwrap();
    r.log
}

#[test]
fn label_min_bounds_is_a_line_of_cells() {
    let ctx = context();
    let mut label: Label<u8, u8, u8> = Label::new(Writer::new(0, 0));
    assert_eq!(Size { w: 0, h: 9 }, label.min_bounds(&ctx));
    label.set_min_chars(12);
    assert_eq!(12, label.min_chars);
    assert_eq!(Size { w: 72, h: 9 }, label.min_bounds(&ctx));
    label.set_font(1);
    assert_eq!(Size { w: 120, h: 13 }, label.min_bounds(&ctx));
}

#[test]
fn label_writes_its_string_at_its_bounds() {
    let ctx = context();
    let mut label: Label<u8, u8, u8> = Label::new(Writer::new(0, 3));
    label.set_bounds(Rect::new(10, 20, 100, 30));
    label.update("hi");
    label.layout(&ctx);
    let log = rendered(&label);
    assert_eq!(1, log.len());
    match &log[0] {
        Command::Write(0, 3, s) => {
            assert_eq!("hi", s.string);
            // h is 5 wide, i is 1 wide, and 1 of padding lies between them.
            assert_eq!(Rect::new(10, 20, 7, 7), s.bounds);
        }
        other => panic!("expected a write, got {:?}", other),
    }
}

#[test]
fn label_aligned_right_writes_up_to_its_right_edge() {
    let ctx = context();
    let mut label: Label<u8, u8, u8> = Label::new(Writer::new(0, 3));
    label.align_to(anchor::X::Right);
    label.set_bounds(Rect::new(10, 20, 100, 30));
    label.update_display("hi");
    label.layout(&ctx);
    match &rendered(&label)[0] {
        Command::Write(_, _, s) => {
            assert_eq!(Point { x: 103, y: 20 }, s.bounds.top_left);
        }
        other => panic!("expected a write, got {:?}", other),
    }
}

#[test]
fn label_fills_its_background_first() {
    let mut label: Label<u8, u8, u8> = Label::new(Writer::new(0, 3));
    label.set_bounds(Rect::new(1, 2, 3, 4));
    label.set_bg(Some(9));
    label.set_fg(4);
    let log = rendered(&label);
    assert_eq!(2, log.len());
    assert_eq!(Command::Fill(Rect::new(1, 2, 3, 4), 9), log[0]);
    assert!(matches!(log[1], Command::Write(0, 4, _)));

    label.set_bg(None);
    assert_eq!(1, rendered(&label).len());
}

#[test]
fn label_keeps_its_layout_until_it_is_laid_out_again() {
    let ctx = context();
    let mut label: Label<u8, u8, u8> = Label::new(Writer::new(0, 3));
    label.update("hi");
    label.layout(&ctx);
    label.update("hiii");
    match &rendered(&label)[0] {
        Command::Write(_, _, s) => {
            assert_eq!("hiii", s.string);
            assert_eq!(Size { w: 7, h: 7 }, s.bounds.size);
        }
        other => panic!("expected a write, got {:?}", other),
    }
    label.layout(&ctx);
    match &rendered(&label)[0] {
        Command::Write(_, _, s) => assert_eq!(Size { w: 11, h: 7 }, s.bounds.size),
        other => panic!("expected a write, got {:?}", other),
    }
}
