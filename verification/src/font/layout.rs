//! Layout algorithm for strings.

pub mod glyphs;
pub mod laws;
pub mod model;

use vstd::prelude::*;

pub use glyphs::{Glyph, GlyphSet};

use crate::font::metrics::chars;
use crate::font::metrics::Metrics;
use crate::metrics::anchor;
use crate::metrics::length::{fits, Length};
use crate::metrics::point::{Delta, Point};
use crate::metrics::rect::Rect;
use crate::metrics::size::Size;
use glyphs::{can_realign, merged, places, realigned};
use model::Pass;

verus! {

/// A laid-out string.
///
/// The default [`String`] is empty and has no glyphs.
#[derive(Debug, PartialEq, Eq)]
pub struct String {
    /// The string that has been laid out.
    pub string: std::string::String,
    /// The bounding box.
    pub bounds: Rect,
    /// The positions of each glyph.
    pub glyphs: GlyphSet,
}

/// A copy of a laid-out string has the same string, the same bounds and the same glyphs.
impl Clone for String {
    fn clone(&self) -> (copy: Self)
        ensures
            copy.string@ == self.string@,
            copy.bounds == self.bounds,
            copy.glyphs@ == self.glyphs@,
    {
        String { string: self.string.clone(), bounds: self.bounds, glyphs: self.glyphs.clone() }
    }
}

/// The default laid-out string is the empty string, with empty bounds and no glyphs.
impl Default for String {
    fn default() -> (laid_out: Self)
        ensures
            laid_out.string@ == Seq::<char>::empty(),
            laid_out.bounds == Rect::zero(),
            laid_out.glyphs@ == Map::<Rect, Seq<Delta>>::empty(),
    {
        String {
            string: std::string::String::new(),
            bounds: Rect::default(),
            glyphs: GlyphSet::default(),
        }
    }
}

/// Lays out `string` in the font with metrics `metrics`, with its top-left corner at
/// `start_point` and its lines aligned to the left.
///
/// The empty string has empty bounds and no glyphs.
#[must_use]
pub fn layout(metrics: &Metrics, string: std::string::String, start_point: Point) -> (laid_out:
    String)
    requires
        model::alignable(metrics, string@, anchor::X::Left),
    ensures
        laid_out.string@ == string@,
        laid_out.bounds == model::layout_bounds(metrics, string@, start_point),
        laid_out.glyphs@ == model::layout_glyphs(metrics, string@, anchor::X::Left),
        string@.len() == 0 ==> laid_out.bounds.size == (Size { w: 0, h: 0 }) && laid_out.glyphs@
            == Map::<Rect, Seq<Delta>>::empty(),
{
    proof {
        if string@.len() == 0 {
            model::lemma_empty_text(metrics, anchor::X::Left);
            assert(string@ =~= Seq::<char>::empty());
        }
    }
    let mut laid_out = Builder::new(metrics).build(string);
    laid_out.bounds.top_left = start_point;
    laid_out
}

/// Lays out `string` in the font with metrics `metrics`, with its top-left corner at the origin
/// and its lines aligned as `alignment` says.
#[must_use]
pub fn layout_with_alignment(
    metrics: &Metrics,
    string: std::string::String,
    alignment: anchor::X,
) -> (laid_out: String)
    requires
        model::alignable(metrics, string@, alignment),
    ensures
        laid_out.string@ == string@,
        laid_out.bounds == model::layout_bounds(metrics, string@, Point { x: 0, y: 0 }),
        laid_out.glyphs@ == model::layout_glyphs(metrics, string@, alignment),
{
    Builder::new(metrics).with_alignment(alignment).build(string)
}

/// Measures `string` in the font with metrics `metrics`: the bounds that [`layout`] gives it at
/// the origin, with no glyph recorded on the way.
#[must_use]
pub fn dry_run(metrics: &Metrics, string: &str) -> (bounds: Rect)
    requires
        model::measurable(metrics, string@),
    ensures
        bounds == model::dry_run_bounds(metrics, string@),
{
    Builder::new(metrics).dry_run(string)
}

/// A line of a layout in progress.
struct Line {
    /// The size, including any padding from the previous line.
    size: Size,
    /// The glyphs of the line.
    glyphs: GlyphSet,
}

impl Line {
    /// Whether this line is the line `line` of a pass.
    spec fn shows(&self, metrics: &Metrics, line: model::Line) -> bool {
        &&& self.size.w == line.width
        &&& self.size.h == line.height
        &&& self.glyphs@ == model::grouped(metrics, line.placed)
        &&& forall|i: int| 0 <= i < line.placed.len() ==> (#[trigger] line.placed[i]).fits()
    }

    /// Makes a line of height `height` without glyphs.
    fn blank(height: Length) -> (line: Self)
        ensures
            forall|metrics: &Metrics| #[trigger]
                line.shows(metrics, model::Line::blank(height as int)),
    {
        let line = Line { size: Size { w: 0, h: height }, glyphs: GlyphSet::default() };
        proof {
            assert forall|metrics: &Metrics| #[trigger]
                line.shows(metrics, model::Line::blank(height as int)) by {
                model::lemma_group_of_none(metrics);
            }
        }
        line
    }
}

/// A string layout builder.
pub struct Builder<'a> {
    /// The metrics of the font.
    font_metrics: &'a Metrics,
    /// The bounding box of the finished lines.
    bounds: Rect,
    /// The padded height of the font.
    padded_h: Length,
    /// The alignment of the lines.
    alignment: anchor::X,
    /// The cursor, as an offset on the top-left of the string layout.
    cursor: Delta,
    /// The metrics of the last character.
    last_char_metrics: Option<&'a chars::Entry>,
    /// The finished lines.
    finished_lines: Vec<Line>,
    /// The line in progress.
    current_line: Line,
    /// The state of the pass that this builder has made so far.
    pass: Ghost<Pass>,
}

impl<'a> Builder<'a> {
    /// The font metrics that this builder lays strings out with.
    pub closed spec fn metrics(&self) -> &Metrics {
        self.font_metrics
    }

    /// The alignment that this builder gives to the lines.
    pub closed spec fn spec_alignment(&self) -> anchor::X {
        self.alignment
    }

    /// Whether this builder is in the state that its pass says.
    spec fn follows(&self) -> bool {
        let pass = self.pass@;
        &&& self.padded_h == self.font_metrics.spec_padded_h()
        &&& self.bounds.top_left == (Point { x: 0, y: 0 })
        &&& self.bounds.size.w == pass.width
        &&& self.bounds.size.h == pass.height
        &&& self.cursor.dx == pass.cursor_x
        &&& self.cursor.dy == pass.cursor_y
        &&& match self.last_char_metrics {
            Some(entry) => pass.last matches Some(p) && *entry == self.font_metrics.chars.entry(p),
            None => pass.last is None,
        }
        &&& self.current_line.shows(self.font_metrics, pass.line)
        &&& self.finished_lines@.len() == pass.lines.len()
        &&& forall|i: int|
            0 <= i < pass.lines.len() ==> (#[trigger] self.finished_lines@[i]).shows(
                self.font_metrics,
                pass.lines[i],
            )
    }

    /// Whether this builder has not laid anything out yet.
    pub closed spec fn is_fresh(&self) -> bool {
        self.follows() && self.pass@ == Pass::start(self.font_metrics)
    }

    /// Constructs a new layout builder with the given font metrics.
    ///
    /// The builder aligns to the left until [`Builder::with_alignment`] says otherwise.
    #[must_use]
    pub fn new(font_metrics: &'a Metrics) -> (builder: Self)
        requires
            fits(font_metrics.spec_padded_h()),
        ensures
            builder.is_fresh(),
            builder.metrics() == font_metrics,
            builder.spec_alignment() == anchor::X::Left,
    {
        Self {
            bounds: Rect::default(),
            font_metrics,
            padded_h: font_metrics.padded_h(),
            alignment: anchor::X::Left,
            cursor: Delta::default(),
            last_char_metrics: None,
            current_line: Line::blank(font_metrics.char.h),
            finished_lines: Vec::new(),
            pass: Ghost(Pass::start(font_metrics)),
        }
    }

    /// Changes the alignment of the layout.
    #[must_use]
    pub fn with_alignment(self, alignment: anchor::X) -> (builder: Self)
        ensures
            builder.metrics() == self.metrics(),
            builder.spec_alignment() == alignment,
            self.is_fresh() ==> builder.is_fresh(),
    {
        let mut builder = self;
        builder.alignment = alignment;
        builder
    }

    /// Builds the layout for a given string.
    ///
    /// The bounding box of the layout has its top-left corner at the origin.  Each line is
    /// moved to the right as the alignment of this builder asks.
    #[must_use]
    pub fn build(self, string: std::string::String) -> (laid_out: String)
        requires
            self.is_fresh(),
            model::alignable(self.metrics(), string@, self.spec_alignment()),
        ensures
            laid_out.string@ == string@,
            laid_out.bounds == model::layout_bounds(self.metrics(), string@, Point { x: 0, y: 0 }),
            laid_out.glyphs@ == model::layout_glyphs(
                self.metrics(),
                string@,
                self.spec_alignment(),
            ),
    {
        let mut builder = self;
        let ghost metrics = builder.font_metrics;
        if string.as_str().is_empty() {
            // No characters in the string.
            proof {
                assert(string@ =~= Seq::<char>::empty());
                model::lemma_group_of_none(metrics);
            }
            return String::default();
        }
        builder.do_layout(string.as_str());

        let ghost lines = builder.pass@.lines;
        let ghost total = builder.pass@.width;
        let alignment = builder.alignment;
        let bounds = builder.bounds;
        let finished_lines = builder.finished_lines;
        let mut glyphs = GlyphSet::default();
        proof {
            assert(lines.take(0) =~= Seq::<model::Line>::empty());
            model::lemma_group_of_none(metrics);
        }
        for line in it: finished_lines
            invariant
                it.seq().len() == lines.len(),
                forall|i: int|
                    0 <= i < lines.len() ==> (#[trigger] it.seq()[i]).shows(metrics, lines[i]),
                forall|i: int|
                    0 <= i < lines.len() ==> model::line_aligns(
                        #[trigger] lines[i],
                        alignment,
                        total,
                    ),
                bounds.size.w == total,
                glyphs@ == model::grouped(
                    metrics,
                    model::collected(lines.take(it.index() as int), alignment, total),
                ),
        {
            let ghost k = it.index() as int;
            let ghost by = model::shift(alignment, lines[k].width, total);
            let ghost before = model::collected(lines.take(k), alignment, total);
            let mut line_glyphs = line.glyphs;
            proof {
                assert(it.seq()[k].shows(metrics, lines[k]));
                assert(model::line_aligns(lines[k], alignment, total));
                lemma_group_can_realign(metrics, lines[k].placed, by);
            }
            line_glyphs.realign(alignment, line.size.w, bounds.size.w);
            proof {
                lemma_group_realigned(metrics, lines[k].placed, by);
                lemma_group_merged(metrics, before, model::aligned(lines[k], alignment, total));
                assert(lines.take(k + 1).drop_last() =~= lines.take(k));
            }
            glyphs.merge(line_glyphs);
        }
        proof {
            assert(lines.take(lines.len() as int) =~= lines);
        }

        String { string, bounds, glyphs }
    }

    /// Pretends to lay out a given string, but only retrieves the bounds.
    #[must_use]
    pub fn dry_run(self, string: &str) -> (bounds: Rect)
        requires
            self.is_fresh(),
            model::measurable(self.metrics(), string@),
        ensures
            bounds == model::dry_run_bounds(self.metrics(), string@),
    {
        let mut builder = self;
        builder.do_layout(string);
        builder.bounds
    }

    /// Reads `string` character by character, and finishes the last line.
    fn do_layout(&mut self, string: &str)
        requires
            old(self).is_fresh(),
            model::measurable(old(self).font_metrics, string@),
        ensures
            final(self).follows(),
            final(self).pass@ == Pass::finished(old(self).font_metrics, string@),
            final(self).font_metrics == old(self).font_metrics,
            final(self).alignment == old(self).alignment,
    {
        let ghost metrics = self.font_metrics;
        let ghost alignment = self.alignment;
        proof {
            assert(string@.take(0) =~= Seq::<char>::empty());
        }
        for c in it: string.chars()
            invariant
                it.seq() == string@,
                Pass::reads(metrics, string@),
                self.follows(),
                self.font_metrics == metrics,
                self.alignment == alignment,
                self.pass@ == Pass::after(metrics, string@.take(it.index() as int)),
        {
            proof {
                model::lemma_reads_part(metrics, string@, it.index() as int);
                model::lemma_after_next(metrics, string@, it.index() as int);
            }
            if c == '\r' {
                self.carriage_return();
            } else if c == '\n' {
                self.line_feed();
            } else {
                self.layout_char(c);
            }
        }
        proof {
            assert(string@.take(string@.len() as int) =~= string@);
        }

        // Implicit newline at the end to tidy things up:
        self.line_feed();
    }

    /// Moves the cursor back to the left edge of the line.
    fn carriage_return(&mut self)
        requires
            old(self).follows(),
        ensures
            final(self).follows(),
            final(self).pass@ == old(self).pass@.carriage_return(),
            final(self).font_metrics == old(self).font_metrics,
            final(self).alignment == old(self).alignment,
    {
        self.cursor.dx = 0;
        self.last_char_metrics = None;
        proof {
            self.pass@ = self.pass@.carriage_return();
        }
    }

    /// Finishes the line in progress, unless it has no width.
    fn line_feed(&mut self)
        requires
            old(self).follows(),
            old(self).pass@.line_feed_fits(old(self).font_metrics),
        ensures
            final(self).follows(),
            final(self).pass@ == old(self).pass@.line_feed(old(self).font_metrics),
            final(self).font_metrics == old(self).font_metrics,
            final(self).alignment == old(self).alignment,
    {
        if self.current_line.size.w == 0 {
            return ;
        }
        self.cursor.dx = 0;
        self.cursor.dy += self.padded_h;

        self.bounds.size = self.bounds.size.stack_vertically(self.current_line.size);
        self.last_char_metrics = None;

        // Any future lines will have padding from the line above.
        let mut line = Line::blank(self.padded_h);
        core::mem::swap(&mut self.current_line, &mut line);
        self.finished_lines.push(line);

        proof {
            self.pass@ = self.pass@.line_feed(self.font_metrics);
        }
    }

    /// Lays out the glyph of `c` after the glyphs of the line in progress.
    fn layout_char(&mut self, c: char)
        requires
            old(self).follows(),
            old(self).pass@.glyph_fits(old(self).font_metrics, c),
        ensures
            final(self).follows(),
            final(self).pass@ == old(self).pass@.glyph(old(self).font_metrics, c),
            final(self).font_metrics == old(self).font_metrics,
            final(self).alignment == old(self).alignment,
    {
        let metrics: &'a Metrics = self.font_metrics;
        let char_metrics: &'a chars::Entry = metrics.chars.get(c);
        self.current_line.size.w += char_metrics.width;

        let last = self.last_char_metrics;
        self.last_char_metrics = Some(char_metrics);
        if let Some(last_metrics) = last {
            self.move_right_with_kerning(c, last_metrics);
        }
        let src = self.char_src_rect(c, char_metrics);
        proof {
            let placement = model::Placement {
                c,
                dx: self.cursor.dx as int,
                dy: self.cursor.dy as int,
            };
            model::lemma_group_with_next(metrics, self.pass@.line.placed, placement);
            model::lemma_places_of_group(metrics, self.pass@.line.placed, src);
            assert(model::deltas_from(metrics, self.pass@.line.placed, src).push(placement.delta())
                =~= model::deltas_from(metrics, self.pass@.line.placed, src) + seq![
                placement.delta(),
            ]);
            let next = self.pass@.glyph(metrics, c);
            assert forall|i: int| 0 <= i < next.line.placed.len() implies (
            #[trigger] next.line.placed[i]).fits() by {
                if i < self.pass@.line.placed.len() {
                    assert(next.line.placed[i] == self.pass@.line.placed[i]);
                }
            }
        }
        self.current_line.glyphs.push(src, self.cursor);
        proof {
            self.pass@ = self.pass@.glyph(metrics, c);
        }
    }

    /// Moves the cursor past the last character, whose entry is `metrics`, up to where `c`
    /// starts.
    fn move_right_with_kerning(&mut self, c: char, metrics: &chars::Entry)
        requires
            fits(metrics.width + metrics.spec_kerning(c)),
            fits(old(self).cursor.dx + metrics.width + metrics.spec_kerning(c)),
            fits(old(self).current_line.size.w + metrics.spec_kerning(c)),
        ensures
            final(self).cursor.dx == old(self).cursor.dx + metrics.width + metrics.spec_kerning(c),
            final(self).current_line.size.w == old(self).current_line.size.w
                + metrics.spec_kerning(c),
            final(self).cursor.dy == old(self).cursor.dy,
            final(self).current_line.size.h == old(self).current_line.size.h,
            final(self).current_line.glyphs == old(self).current_line.glyphs,
            final(self).font_metrics == old(self).font_metrics,
            final(self).bounds == old(self).bounds,
            final(self).padded_h == old(self).padded_h,
            final(self).alignment == old(self).alignment,
            final(self).last_char_metrics == old(self).last_char_metrics,
            final(self).finished_lines == old(self).finished_lines,
            final(self).pass == old(self).pass,
    {
        let kerning = metrics.kerning(c);
        self.cursor.dx += metrics.width + kerning;
        self.current_line.size.w += kerning;
    }

    /// The part of the font texture that holds the glyph of `c`, whose entry is `metrics`.
    fn char_src_rect(&self, c: char, metrics: &chars::Entry) -> (src: Rect)
        requires
            self.font_metrics.glyph_fits(c),
            *metrics == self.font_metrics.chars.entry(c),
        ensures
            src == model::source(self.font_metrics, c),
    {
        let src_top_left = self.font_metrics.glyph_top_left(c);
        let size = Size { w: metrics.width, h: self.font_metrics.char.h };
        src_top_left.to_rect(size, anchor::Anchor::top_left())
    }
}

/// The places of a group can move where its glyphs can.
proof fn lemma_group_can_realign(metrics: &Metrics, placed: Seq<model::Placement>, by: int)
    requires
        forall|i: int| 0 <= i < placed.len() ==> (#[trigger] placed[i]).fits(),
        forall|i: int| 0 <= i < placed.len() ==> fits(#[trigger] placed[i].dx + by),
    ensures
        can_realign(model::grouped(metrics, placed), by),
{
    let glyphs = model::grouped(metrics, placed);
    assert forall|src: Rect, l: int|
        glyphs.contains_key(src) && 0 <= l < glyphs[src].len() implies fits(
        (#[trigger] glyphs[src][l]).dx + by,
    ) by {
        let i = model::lemma_place_is_placed(metrics, placed, src, l);
        assert(placed[i].fits());
        assert(fits(placed[i].dx + by));
    }
}

/// Realigning the group of some glyphs gives the group of the glyphs moved.
proof fn lemma_group_realigned(metrics: &Metrics, placed: Seq<model::Placement>, by: int)
    requires
        forall|i: int| 0 <= i < placed.len() ==> (#[trigger] placed[i]).fits(),
    ensures
        realigned(model::grouped(metrics, placed), by) == model::grouped(
            metrics,
            model::moved(placed, by),
        ),
{
    let before = model::grouped(metrics, placed);
    let after = model::grouped(metrics, model::moved(placed, by));
    assert forall|src: Rect|
        realigned(before, by).contains_key(src) == #[trigger] after.contains_key(src) && (
        after.contains_key(src) ==> realigned(before, by)[src] == after[src]) by {
        model::lemma_places_moved(metrics, placed, by, src);
        if after.contains_key(src) {
            assert(realigned(before, by)[src] =~= after[src]);
        }
    }
    assert(realigned(before, by) =~= after);
}

/// Merging the groups of two rows of glyphs gives the group of the two rows in a row.
proof fn lemma_group_merged(
    metrics: &Metrics,
    first: Seq<model::Placement>,
    second: Seq<model::Placement>,
)
    ensures
        merged(model::grouped(metrics, first), model::grouped(metrics, second)) == model::grouped(
            metrics,
            first + second,
        ),
{
    model::lemma_group_in_a_row(metrics, first, second);
    assert forall|src: Rect|
        places(model::grouped(metrics, first), src) == model::deltas_from(metrics, first, src)
            && places(model::grouped(metrics, second), src) == model::deltas_from(
            metrics,
            second,
            src,
        ) by {
        model::lemma_places_of_group(metrics, first, src);
        model::lemma_places_of_group(metrics, second, src);
    }
    assert(merged(model::grouped(metrics, first), model::grouped(metrics, second))
        =~= model::grouped(metrics, first + second));
}

} // verus!
