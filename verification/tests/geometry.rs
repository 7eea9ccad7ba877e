//! Tests of lengths, points, sizes, rectangles and anchors.

use ugly::backends::sdl::metrics::convert_size;
use ugly::metrics::anchor::{Anchor, X, Y};
use ugly::metrics::length::{clamp, max};
use ugly::metrics::point::{Delta, Point};
use ugly::metrics::rect::Rect;
use ugly::metrics::size::Size;

/// Checks that the default anchor is made up of the default X and Y anchors.
#[test]
fn default_agreement() {
    assert_eq!(
        Anchor::default(),
        Anchor {
            x: X::default(),
            y: Y::default()
        }
    );
}

/// Sizes must not be made negative by growing them by negative amounts.
#[test]
fn grow_negative_clamp() {
    assert_eq!(Size::default(), Size::default().grow(-1));
}

#[test]
fn max_is_the_larger() {
    assert_eq!(42, max(24, 42));
    assert_eq!(42, max(42, 24));
    assert_eq!(-1, max(-1, -1));
}

#[test]
fn clamp_cuts_negatives() {
    assert_eq!(5, clamp(5));
    assert_eq!(0, clamp(0));
    assert_eq!(0, clamp(-5));
}

#[test]
fn anchor_offsets() {
    assert_eq!(0, X::Left.offset(320));
    assert_eq!(320, X::Right.offset(320));
    assert_eq!(0, Y::Top.offset(240));
    assert_eq!(240, Y::Bottom.offset(240));
}

#[test]
fn named_anchors() {
    assert_eq!(Anchor { x: X::Left, y: Y::Top }, Anchor::top_left());
    assert_eq!(Anchor { x: X::Right, y: Y::Top }, Anchor::top_right());
    assert_eq!(Anchor { x: X::Left, y: Y::Bottom }, Anchor::bottom_left());
    assert_eq!(Anchor { x: X::Right, y: Y::Bottom }, Anchor::bottom_right());
}

#[test]
fn point_offset_returns_a_new_point() {
    let p = Point { x: 0, y: 0 };
    let q = p.offset(0, 10);
    let r = q.offset(-4, 2);

    assert_eq!(0, p.x);
    assert_eq!(0, p.y);
    assert_eq!(0, q.x);
    assert_eq!(10, q.y);
    assert_eq!(-4, r.x);
    assert_eq!(12, r.y);
}

#[test]
fn point_offset_mut_moves_in_place() {
    let mut p = Point { x: 0, y: 0 };
    p.offset_mut(0, 10);
    p.offset_mut(-4, 0);
    p.offset_mut(2, 2);

    assert_eq!(-2, p.x);
    assert_eq!(12, p.y);
}

#[test]
fn point_to_rect_at_top_left() {
    let p = Point { x: 4, y: 8 };
    let s = Size { w: 10, h: 2 };
    let r = p.to_rect(s, Anchor::top_left());

    assert_eq!(p, r.top_left);
    assert_eq!(s, r.size);
}

#[test]
fn point_to_rect_at_bottom_right() {
    let p = Point { x: 4, y: 8 };
    let s = Size { w: 10, h: 2 };
    let r = p.to_rect(s, Anchor::bottom_right());

    assert_eq!(Point { x: -6, y: 6 }, r.top_left);
    assert_eq!(s, r.size);
}

#[test]
fn default_delta_is_zero() {
    assert_eq!(Delta { dx: 0, dy: 0 }, Delta::default());
}

#[test]
fn size_grow_and_shrink() {
    assert_eq!(Size { w: 42, h: 22 }, Size { w: 40, h: 20 }.grow(2));
    assert_eq!(Size { w: 40, h: 20 }, Size { w: 42, h: 22 }.grow(-2));
    assert_eq!(Size { w: 0, h: 15 }, Size { w: 5, h: 25 }.grow(-10));
}

#[test]
fn size_stacking() {
    assert_eq!(
        Size { w: 42, h: 32 },
        Size { w: 42, h: 10 }.stack_vertically(Size { w: 20, h: 22 })
    );
    assert_eq!(
        Size { w: 62, h: 22 },
        Size { w: 42, h: 10 }.stack_horizontally(Size { w: 20, h: 22 })
    );
}

#[test]
fn size_is_zero() {
    assert!(Size { w: 0, h: 10 }.is_zero());
    assert!(Size { w: 10, h: 0 }.is_zero());
    assert!(Size { w: -1, h: 10 }.is_zero());
    assert!(!Size { w: 10, h: 10 }.is_zero());
}

#[test]
fn size_is_normal() {
    assert!(Size { w: 10, h: 10 }.is_normal());
    assert!(Size { w: 5, h: 0 }.is_normal());
    assert!(!Size { w: -5, h: 10 }.is_normal());
}

#[test]
fn size_clamp_is_normal() {
    assert!(Size { w: -5, h: 10 }.clamp().is_normal());
    assert_eq!(Size { w: 0, h: 10 }, Size { w: -5, h: 10 }.clamp());
}

#[test]
fn rect_new_sets_every_field() {
    let r = Rect::new(1, 2, 3, 4);
    assert_eq!(Point { x: 1, y: 2 }, r.top_left);
    assert_eq!(Size { w: 3, h: 4 }, r.size);
}

#[test]
fn rect_from_points_and_anchors() {
    let tl = Point { x: 20, y: 45 };
    let br = Point { x: 55, y: 70 };
    let rect = Rect::from_points(tl, br);
    assert_eq!(tl, rect.anchor(Anchor::top_left()));
    assert_eq!(br, rect.anchor(Anchor::bottom_right()));
    assert_eq!(Point { x: 55, y: 45 }, rect.anchor(Anchor::top_right()));
    assert_eq!(Point { x: 20, y: 70 }, rect.anchor(Anchor::bottom_left()));
}

#[test]
fn rect_from_points_the_wrong_way_round_is_empty() {
    let tl = Point { x: 20, y: 45 };
    let br = Point { x: 10, y: 70 };
    let rect = Rect::from_points(tl, br);
    assert_eq!(tl, rect.top_left);
    assert_eq!(Size { w: 0, h: 25 }, rect.size);
}

#[test]
fn rect_point_x_y() {
    let rect = Rect::new(10, 20, 100, 50);
    assert_eq!(113, rect.x(3, X::Right));
    assert_eq!(13, rect.x(3, X::Left));
    assert_eq!(66, rect.y(-4, Y::Bottom));
    assert_eq!(16, rect.y(-4, Y::Top));
    assert_eq!(Point { x: 113, y: 16 }, rect.point(3, -4, Anchor::top_right()));
}

#[test]
fn rect_grow_on_each_side() {
    let rect = Rect::new(10, 20, 100, 50);
    assert_eq!(Rect::new(8, 18, 104, 54), rect.grow(2));
    assert_eq!(Rect::new(15, 25, 90, 40), rect.grow(-5));
    assert_eq!(Rect::new(40, 50, 40, 0), rect.grow(-30));
}

#[test]
fn default_rect_is_empty() {
    assert_eq!(Rect::new(0, 0, 0, 0), Rect::default());
}

#[test]
fn convert_size_clips_negatives() {
    assert_eq!((3, 4), convert_size(&Size { w: 3, h: 4 }));
    assert_eq!((0, 4), convert_size(&Size { w: -3, h: 4 }));
    assert_eq!((3, 0), convert_size(&Size { w: 3, h: -4 }));
    assert_eq!((0, 0), convert_size(&Size { w: 0, h: i32::MIN }));
    assert_eq!((2147483647, 0), convert_size(&Size { w: i32::MAX, h: 0 }));
}
