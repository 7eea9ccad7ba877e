//! The layout algorithm as mathematics.
//!
//! A layout pass reads a string character by character and keeps a little state: the lines it
//! has finished, the line it is on, a cursor, and the character it saw last.  This module
//! defines that state and its steps over unbounded integers, and says when a pass stays within
//! what a [`Length`](crate::metrics::Length) can hold.  The executable layout code is proved to
//! compute exactly what this module defines.

use vstd::prelude::*;

use crate::font::metrics::Metrics;
use crate::metrics::anchor;
use crate::metrics::length::{fits, spec_max};
use crate::metrics::point::{Delta, Point};
use crate::metrics::rect::Rect;
use crate::metrics::size::Size;

verus! {

/// One glyph on its way to the screen: a character, and where it goes relative to the top-left
/// of the laid-out string.
pub struct Placement {
    /// The character.
    pub c: char,
    /// The distance from the left edge of the string to the left edge of the glyph.
    pub dx: int,
    /// The distance from the top edge of the string to the top edge of the glyph.
    pub dy: int,
}

/// One line of a layout pass.
pub struct Line {
    /// The characters that the pass has read on this line, carriage returns among them.
    pub text: Seq<char>,
    /// The width of the line.
    pub width: int,
    /// The height of the line, with the padding that parts it from the line above.
    pub height: int,
    /// The glyphs of the line, in reading order.
    pub placed: Seq<Placement>,
}

/// The state of a layout pass.
pub struct Pass {
    /// The finished lines, first line first.
    pub lines: Seq<Line>,
    /// The line in progress.
    pub line: Line,
    /// The horizontal cursor: where the next glyph of the line in progress starts, but for the
    /// advance past the last glyph.
    pub cursor_x: int,
    /// The vertical cursor: the top of the line in progress.
    pub cursor_y: int,
    /// The character before the cursor, if the next character is to be kerned against it.
    pub last: Option<char>,
    /// The width of the finished lines together.
    pub width: int,
    /// The height of the finished lines together.
    pub height: int,
}

impl Placement {
    /// This placement, `by` further to the right.
    pub open spec fn moved(self, by: int) -> Placement {
        Placement { c: self.c, dx: self.dx + by, dy: self.dy }
    }

    /// Whether both coordinates can be held in lengths.
    pub open spec fn fits(self) -> bool {
        fits(self.dx) && fits(self.dy)
    }

    /// The placement as the delta that a glyph set stores.
    pub open spec fn delta(self) -> Delta {
        Delta { dx: self.dx as i32, dy: self.dy as i32 }
    }
}

impl Line {
    /// A line on which nothing has been laid out yet.
    pub open spec fn blank(height: int) -> Line {
        Line { text: Seq::empty(), width: 0, height, placed: Seq::empty() }
    }
}

impl Pass {
    /// The state in which every pass starts.
    ///
    /// The first line is as tall as a character: only the lines below it carry padding.
    pub open spec fn start(metrics: &Metrics) -> Pass {
        Pass {
            lines: Seq::empty(),
            line: Line::blank(metrics.char.h as int),
            cursor_x: 0,
            cursor_y: 0,
            last: None,
            width: 0,
            height: 0,
        }
    }

    /// The state after a carriage return: the cursor is back at the left edge, and the next
    /// character is kerned against nothing.  The line keeps the width it has.
    pub open spec fn carriage_return(self) -> Pass {
        Pass {
            line: Line { text: self.line.text.push('\r'), ..self.line },
            cursor_x: 0,
            last: None,
            ..self
        }
    }

    /// Where the glyph of `c` starts if it is laid out next.
    ///
    /// After a character `p`, the cursor first advances by the width of `p` and the spacing
    /// between `p` and `c`.
    pub open spec fn next_x(self, metrics: &Metrics, c: char) -> int {
        match self.last {
            Some(p) => self.cursor_x + metrics.chars.width(p) + metrics.chars.kerning(p, c),
            None => self.cursor_x,
        }
    }

    /// The width of the line in progress if the glyph of `c` is laid out next.
    pub open spec fn next_width(self, metrics: &Metrics, c: char) -> int {
        match self.last {
            Some(p) => self.line.width + metrics.chars.width(c) + metrics.chars.kerning(p, c),
            None => self.line.width + metrics.chars.width(c),
        }
    }

    /// The state after laying out the glyph of `c`.
    pub open spec fn glyph(self, metrics: &Metrics, c: char) -> Pass {
        let x = self.next_x(metrics, c);
        Pass {
            line: Line {
                text: self.line.text.push(c),
                width: self.next_width(metrics, c),
                height: self.line.height,
                placed: self.line.placed.push(Placement { c, dx: x, dy: self.cursor_y }),
            },
            cursor_x: x,
            last: Some(c),
            ..self
        }
    }

    /// The state after a line feed.
    ///
    /// A line of width zero is not finished: the line feed then changes nothing.  Any other
    /// line joins the finished lines, below those that are there: the width of the whole is
    /// that of its widest line, its height the sum of the heights.  The pass goes on with a
    /// blank line, which carries the padding that parts it from the line above.
    pub open spec fn line_feed(self, metrics: &Metrics) -> Pass {
        if self.line.width == 0 {
            self
        } else {
            Pass {
                lines: self.lines.push(self.line),
                line: Line::blank(metrics.spec_padded_h()),
                cursor_x: 0,
                cursor_y: self.cursor_y + metrics.spec_padded_h(),
                last: None,
                width: spec_max(self.width, self.line.width),
                height: self.height + self.line.height,
            }
        }
    }

    /// The state after reading character `c`.
    pub open spec fn feed(self, metrics: &Metrics, c: char) -> Pass {
        if c == '\r' {
            self.carriage_return()
        } else if c == '\n' {
            self.line_feed(metrics)
        } else {
            self.glyph(metrics, c)
        }
    }

    /// The state after reading all of `text` in this state.
    pub open spec fn read(self, metrics: &Metrics, text: Seq<char>) -> Pass
        decreases text.len(),
    {
        if text.len() == 0 {
            self
        } else {
            self.read(metrics, text.drop_last()).feed(metrics, text.last())
        }
    }

    /// The state after reading all of `text`.
    pub open spec fn after(metrics: &Metrics, text: Seq<char>) -> Pass
        decreases text.len(),
    {
        if text.len() == 0 {
            Pass::start(metrics)
        } else {
            Pass::after(metrics, text.drop_last()).feed(metrics, text.last())
        }
    }

    /// The state at the end of a pass over `text`: a last line feed finishes the last line.
    pub open spec fn finished(metrics: &Metrics, text: Seq<char>) -> Pass {
        Pass::after(metrics, text).line_feed(metrics)
    }

    /// Whether laying out the glyph of `c` next stays within lengths.
    pub open spec fn glyph_fits(self, metrics: &Metrics, c: char) -> bool {
        &&& fits(self.line.width + metrics.chars.width(c))
        &&& self.last matches Some(p) ==> fits(
            metrics.chars.width(p) + metrics.chars.kerning(p, c),
        )
        &&& fits(self.next_x(metrics, c))
        &&& fits(self.next_width(metrics, c))
        &&& metrics.glyph_fits(c)
    }

    /// Whether a line feed stays within lengths.
    pub open spec fn line_feed_fits(self, metrics: &Metrics) -> bool {
        self.line.width != 0 ==> fits(self.cursor_y + metrics.spec_padded_h()) && fits(
            self.height + self.line.height,
        )
    }

    /// Whether reading `c` stays within lengths.
    pub open spec fn feed_fits(self, metrics: &Metrics, c: char) -> bool {
        if c == '\r' {
            true
        } else if c == '\n' {
            self.line_feed_fits(metrics)
        } else {
            self.glyph_fits(metrics, c)
        }
    }

    /// Whether reading all of `text` stays within lengths.
    pub open spec fn reads(metrics: &Metrics, text: Seq<char>) -> bool
        decreases text.len(),
    {
        text.len() > 0 ==> Pass::reads(metrics, text.drop_last()) && Pass::after(
            metrics,
            text.drop_last(),
        ).feed_fits(metrics, text.last())
    }
}

/// Whether a pass over `text` can measure it: the padded height of the font and every value
/// that the pass computes can be held in lengths.
pub open spec fn measurable(metrics: &Metrics, text: Seq<char>) -> bool {
    &&& fits(metrics.spec_padded_h())
    &&& Pass::reads(metrics, text)
    &&& Pass::after(metrics, text).line_feed_fits(metrics)
}

/// How far a line of width `line_width` moves to the right so that its anchor `alignment`
/// comes to lie on that of a string of width `total_width`.
pub open spec fn shift(alignment: anchor::X, line_width: int, total_width: int) -> int {
    alignment.spec_offset(total_width - line_width)
}

/// The placements `placed`, each `by` further to the right.
pub open spec fn moved(placed: Seq<Placement>, by: int) -> Seq<Placement> {
    Seq::new(placed.len(), |i: int| placed[i].moved(by))
}

/// The glyphs of `line` where the line is part of a string of width `total_width`.
pub open spec fn aligned(line: Line, alignment: anchor::X, total_width: int) -> Seq<Placement> {
    moved(line.placed, shift(alignment, line.width, total_width))
}

/// The glyphs of all of `lines`, aligned, first line first.
pub open spec fn collected(lines: Seq<Line>, alignment: anchor::X, total_width: int) -> Seq<
    Placement,
>
    decreases lines.len(),
{
    if lines.len() == 0 {
        Seq::empty()
    } else {
        collected(lines.drop_last(), alignment, total_width) + aligned(
            lines.last(),
            alignment,
            total_width,
        )
    }
}

/// Whether aligning `line` within a string of width `total_width` stays within lengths.
pub open spec fn line_aligns(line: Line, alignment: anchor::X, total_width: int) -> bool {
    &&& fits(total_width - line.width)
    &&& forall|i: int|
        0 <= i < line.placed.len() ==> fits(
            #[trigger] line.placed[i].dx + shift(alignment, line.width, total_width),
        )
}

/// Whether `text` can be laid out with alignment `alignment`: a pass can measure it, and
/// aligning each of its lines stays within lengths.
pub open spec fn alignable(metrics: &Metrics, text: Seq<char>, alignment: anchor::X) -> bool {
    &&& measurable(metrics, text)
    &&& forall|i: int|
        0 <= i < Pass::finished(metrics, text).lines.len() ==> line_aligns(
            #[trigger] Pass::finished(metrics, text).lines[i],
            alignment,
            Pass::finished(metrics, text).width,
        )
}

/// The size of `text` laid out.
pub open spec fn measured(metrics: &Metrics, text: Seq<char>) -> Size {
    Size {
        w: Pass::finished(metrics, text).width as i32,
        h: Pass::finished(metrics, text).height as i32,
    }
}

/// The bounds that a dry run finds for `text`.
pub open spec fn dry_run_bounds(metrics: &Metrics, text: Seq<char>) -> Rect {
    Rect { top_left: Point { x: 0, y: 0 }, size: measured(metrics, text) }
}

/// The bounds of `text` laid out with its top-left corner at `start`.
pub open spec fn layout_bounds(metrics: &Metrics, text: Seq<char>, start: Point) -> Rect {
    Rect { top_left: start, size: measured(metrics, text) }
}

/// The glyphs of `text` laid out with alignment `alignment`, in reading order.
pub open spec fn placed(metrics: &Metrics, text: Seq<char>, alignment: anchor::X) -> Seq<
    Placement,
> {
    collected(
        Pass::finished(metrics, text).lines,
        alignment,
        Pass::finished(metrics, text).width,
    )
}

/// The part of the font texture that holds the glyph of `c`.
pub open spec fn source(metrics: &Metrics, c: char) -> Rect {
    Rect {
        top_left: Point { x: metrics.glyph_left(c) as i32, y: metrics.glyph_top(c) as i32 },
        size: Size { w: metrics.chars.entry(c).width, h: metrics.char.h },
    }
}

/// The places of those glyphs among `placed` that come from the part `src` of the texture, in
/// the order of `placed`.
pub open spec fn deltas_from(metrics: &Metrics, placed: Seq<Placement>, src: Rect) -> Seq<Delta>
    decreases placed.len(),
{
    if placed.len() == 0 {
        Seq::empty()
    } else if source(metrics, placed.last().c) == src {
        deltas_from(metrics, placed.drop_last(), src).push(placed.last().delta())
    } else {
        deltas_from(metrics, placed.drop_last(), src)
    }
}

/// Whether some glyph among `placed` comes from the part `src` of the texture.
pub open spec fn draws_from(metrics: &Metrics, placed: Seq<Placement>, src: Rect) -> bool {
    exists|i: int| 0 <= i < placed.len() && source(metrics, #[trigger] placed[i].c) == src
}

/// The glyph set of `text` laid out with alignment `alignment`.
pub open spec fn layout_glyphs(metrics: &Metrics, text: Seq<char>, alignment: anchor::X) -> Map<
    Rect,
    Seq<Delta>,
> {
    grouped(metrics, placed(metrics, text, alignment))
}

/// The glyphs `placed`, grouped by the part of the texture that they come from.
pub open spec fn grouped(metrics: &Metrics, placed: Seq<Placement>) -> Map<Rect, Seq<Delta>> {
    Map::new(
        |src: Rect| draws_from(metrics, placed, src),
        |src: Rect| deltas_from(metrics, placed, src),
    )
}

/// The empty text takes no room and has no glyphs, whatever the alignment.
pub proof fn lemma_empty_text(metrics: &Metrics, alignment: anchor::X)
    ensures
        measured(metrics, Seq::empty()) == (Size { w: 0, h: 0 }),
        placed(metrics, Seq::empty(), alignment) == Seq::<Placement>::empty(),
        layout_glyphs(metrics, Seq::empty(), alignment) == Map::<Rect, Seq<Delta>>::empty(),
{
    lemma_group_of_none(metrics);
}

/// A pass that reads a text within lengths reads each part of it within lengths, and the
/// character after each part.
pub proof fn lemma_reads_part(metrics: &Metrics, text: Seq<char>, k: int)
    requires
        Pass::reads(metrics, text),
        0 <= k <= text.len(),
    ensures
        Pass::reads(metrics, text.take(k)),
        k < text.len() ==> Pass::after(metrics, text.take(k)).feed_fits(metrics, text[k]),
    decreases text.len(),
{
    if k == text.len() {
        assert(text.take(k) =~= text);
    } else {
        let head = text.drop_last();
        assert(head.take(k) =~= text.take(k));
        if k == text.len() - 1 {
            assert(head =~= text.take(k));
        } else {
            lemma_reads_part(metrics, head, k);
        }
    }
}

/// Reading one more character is one more step of the pass.
pub proof fn lemma_after_next(metrics: &Metrics, text: Seq<char>, k: int)
    requires
        0 <= k < text.len(),
    ensures
        Pass::after(metrics, text.take(k + 1)) == Pass::after(metrics, text.take(k)).feed(
            metrics,
            text[k],
        ),
{
    assert(text.take(k + 1).drop_last() =~= text.take(k));
}

/// Glyphs that do not come from `src` have no places there.
proof fn lemma_no_places(metrics: &Metrics, placed: Seq<Placement>, src: Rect)
    requires
        !draws_from(metrics, placed, src),
    ensures
        deltas_from(metrics, placed, src) == Seq::<Delta>::empty(),
    decreases placed.len(),
{
    if placed.len() > 0 {
        let head = placed.drop_last();
        assert(source(metrics, placed[placed.len() - 1].c) != src);
        assert forall|i: int| 0 <= i < head.len() implies source(metrics, #[trigger] head[i].c)
            != src by {
            assert(head[i] == placed[i]);
        }
        lemma_no_places(metrics, head, src);
    }
}

/// The places that a group has from `src` are the places of the glyphs that come from `src`.
pub proof fn lemma_places_of_group(metrics: &Metrics, placed: Seq<Placement>, src: Rect)
    ensures
        (if grouped(metrics, placed).contains_key(src) {
            grouped(metrics, placed)[src]
        } else {
            Seq::empty()
        }) == deltas_from(metrics, placed, src),
{
    if !draws_from(metrics, placed, src) {
        lemma_no_places(metrics, placed, src);
    }
}

/// No glyphs make an empty group.
pub proof fn lemma_group_of_none(metrics: &Metrics)
    ensures
        grouped(metrics, Seq::empty()) == Map::<Rect, Seq<Delta>>::empty(),
{
    assert(grouped(metrics, Seq::empty()) =~= Map::<Rect, Seq<Delta>>::empty());
}

/// One more glyph is one more place of its source, after the places that are there.
pub proof fn lemma_group_with_next(metrics: &Metrics, placed: Seq<Placement>, next: Placement)
    ensures
        grouped(metrics, placed.push(next)) == grouped(metrics, placed).insert(
            source(metrics, next.c),
            deltas_from(metrics, placed, source(metrics, next.c)).push(next.delta()),
        ),
{
    let after = placed.push(next);
    let src = source(metrics, next.c);
    assert(after.drop_last() =~= placed);
    assert forall|other: Rect|
        draws_from(metrics, after, other) == (draws_from(metrics, placed, other) || other
            == src) by {
        if draws_from(metrics, placed, other) {
            let i = choose|i: int|
                0 <= i < placed.len() && source(metrics, #[trigger] placed[i].c) == other;
            assert(after[i] == placed[i]);
        }
        if other == src {
            assert(after[placed.len() as int].c == next.c);
        }
        if draws_from(metrics, after, other) {
            let i = choose|i: int|
                0 <= i < after.len() && source(metrics, #[trigger] after[i].c) == other;
            if i < placed.len() {
                assert(after[i] == placed[i]);
            }
        }
    }
    assert(grouped(metrics, after) =~= grouped(metrics, placed).insert(
        src,
        deltas_from(metrics, placed, src).push(next.delta()),
    ));
}

/// The places of glyphs in a row are the places of the first glyphs, then those of the rest.
proof fn lemma_places_in_a_row(
    metrics: &Metrics,
    first: Seq<Placement>,
    second: Seq<Placement>,
    src: Rect,
)
    ensures
        deltas_from(metrics, first + second, src) == deltas_from(metrics, first, src)
            + deltas_from(metrics, second, src),
    decreases second.len(),
{
    if second.len() == 0 {
        assert(first + second =~= first);
        assert(deltas_from(metrics, first, src) + Seq::<Delta>::empty() =~= deltas_from(
            metrics,
            first,
            src,
        ));
    } else {
        let head = second.drop_last();
        assert((first + second).drop_last() =~= first + head);
        assert((first + second).last() == second.last());
        lemma_places_in_a_row(metrics, first, head, src);
        assert((deltas_from(metrics, first, src) + deltas_from(metrics, head, src)).push(
            second.last().delta(),
        ) =~= deltas_from(metrics, first, src) + deltas_from(metrics, head, src).push(
            second.last().delta(),
        ));
    }
}

/// Glyphs in a row come from `src` where the first glyphs or the rest do.
proof fn lemma_draws_in_a_row(
    metrics: &Metrics,
    first: Seq<Placement>,
    second: Seq<Placement>,
    src: Rect,
)
    ensures
        draws_from(metrics, first + second, src) == (draws_from(metrics, first, src)
            || draws_from(metrics, second, src)),
{
    let both = first + second;
    if draws_from(metrics, first, src) {
        let i = choose|i: int|
            0 <= i < first.len() && source(metrics, #[trigger] first[i].c) == src;
        assert(both[i] == first[i]);
    }
    if draws_from(metrics, second, src) {
        let i = choose|i: int|
            0 <= i < second.len() && source(metrics, #[trigger] second[i].c) == src;
        assert(both[first.len() + i] == second[i]);
    }
    if draws_from(metrics, both, src) {
        let i = choose|i: int|
            0 <= i < both.len() && source(metrics, #[trigger] both[i].c) == src;
        if i < first.len() {
            assert(both[i] == first[i]);
        } else {
            assert(both[i] == second[i - first.len()]);
        }
    }
}

/// The group of glyphs in a row holds, for each source, the places of the first glyphs and then
/// those of the rest.
pub proof fn lemma_group_in_a_row(
    metrics: &Metrics,
    first: Seq<Placement>,
    second: Seq<Placement>,
)
    ensures
        grouped(metrics, first + second) == Map::new(
            |src: Rect|
                grouped(metrics, first).contains_key(src) || grouped(
                    metrics,
                    second,
                ).contains_key(src),
            |src: Rect|
                deltas_from(metrics, first, src) + deltas_from(metrics, second, src),
        ),
{
    assert forall|src: Rect|
        draws_from(metrics, first + second, src) == (draws_from(metrics, first, src)
            || draws_from(metrics, second, src)) && deltas_from(metrics, first + second, src)
            == deltas_from(metrics, first, src) + deltas_from(metrics, second, src) by {
        lemma_draws_in_a_row(metrics, first, second, src);
        lemma_places_in_a_row(metrics, first, second, src);
    }
    assert(grouped(metrics, first + second) =~= Map::new(
        |src: Rect|
            grouped(metrics, first).contains_key(src) || grouped(metrics, second).contains_key(
                src,
            ),
        |src: Rect| deltas_from(metrics, first, src) + deltas_from(metrics, second, src),
    ));
}

/// Each place from `src` is the place of one of the glyphs.
pub proof fn lemma_place_is_placed(
    metrics: &Metrics,
    placed: Seq<Placement>,
    src: Rect,
    l: int,
) -> (i: int)
    requires
        0 <= l < deltas_from(metrics, placed, src).len(),
    ensures
        0 <= i < placed.len(),
        deltas_from(metrics, placed, src)[l] == placed[i].delta(),
    decreases placed.len(),
{
    let head = placed.drop_last();
    if source(metrics, placed.last().c) == src && l == deltas_from(metrics, head, src).len() {
        placed.len() - 1
    } else {
        let i = lemma_place_is_placed(metrics, head, src, l);
        assert(head[i] == placed[i]);
        i
    }
}

/// Moving glyphs moves their places.
pub proof fn lemma_places_moved(metrics: &Metrics, placed: Seq<Placement>, by: int, src: Rect)
    requires
        forall|i: int| 0 <= i < placed.len() ==> (#[trigger] placed[i]).fits(),
    ensures
        deltas_from(metrics, moved(placed, by), src).len() == deltas_from(
            metrics,
            placed,
            src,
        ).len(),
        forall|l: int|
            0 <= l < deltas_from(metrics, placed, src).len() ==> (#[trigger] deltas_from(
                metrics,
                moved(placed, by),
                src,
            )[l]) == (Delta {
                dx: (deltas_from(metrics, placed, src)[l].dx + by) as i32,
                dy: deltas_from(metrics, placed, src)[l].dy,
            }),
        draws_from(metrics, moved(placed, by), src) == draws_from(metrics, placed, src),
    decreases placed.len(),
{
    let after = moved(placed, by);
    if placed.len() > 0 {
        let head = placed.drop_last();
        assert(after.drop_last() =~= moved(head, by));
        assert(after.last() == placed.last().moved(by));
        assert(placed[placed.len() - 1].fits());
        assert forall|i: int| 0 <= i < head.len() implies (#[trigger] head[i]).fits() by {
            assert(head[i] == placed[i]);
        }
        lemma_places_moved(metrics, head, by, src);
    }
    if draws_from(metrics, placed, src) {
        let i = choose|i: int|
            0 <= i < placed.len() && source(metrics, #[trigger] placed[i].c) == src;
        assert(after[i].c == placed[i].c);
    }
    if draws_from(metrics, after, src) {
        let i = choose|i: int|
            0 <= i < after.len() && source(metrics, #[trigger] after[i].c) == src;
        assert(after[i].c == placed[i].c);
    }
}

} // verus!
