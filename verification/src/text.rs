//! Mid-level text composition interface.

use vstd::prelude::*;

use crate::error;
use crate::font;
use crate::font::layout::model;
use crate::metrics::anchor;
use crate::metrics::length::fits;
use crate::metrics::point::{Delta, Point};
use crate::metrics::rect::Rect;
use crate::render::Renderer;
use crate::resource::ResourceMap;

verus! {

/// A formatted text renderer.
///
/// This type serves both as a builder for laying out and writing strings, as well as a basic
/// cache method: the writer will try to minimise re-layouting when strings and options change.
#[derive(Debug, Clone)]
pub struct Writer<FontId, FgId> {
    /// The point used as the anchor for the writing.
    pos: Point,
    /// The alignment for the writing.
    alignment: anchor::X,
    /// The font being used for writing.
    pub(crate) font: FontId,
    /// The foreground colour being used for writing.
    fg: FgId,
    /// The most recently laid-out string.
    layout: font::layout::String,
    /// Can we reuse the last computed layout?
    layout_reusable: bool,
}

/// The default writer writes in the default font and the default foreground colour.
impl<FontId: Default, FgId: Default> Default for Writer<FontId, FgId> {
    fn default() -> (writer: Self)
        ensures
            writer.spec_pos() == (Point { x: 0, y: 0 }),
            writer.spec_alignment() == anchor::X::Left,
            call_ensures(FontId::default, (), writer.font_id()),
            call_ensures(FgId::default, (), writer.fg_id()),
            writer.string() == Seq::<char>::empty(),
            writer.bounds() == Rect::zero(),
            writer.glyphs() == Map::<Rect, Seq<Delta>>::empty(),
            !writer.is_reusable(),
    {
        Self::new(FontId::default(), FgId::default())
    }
}

/// Where the left edge of writing of width `width` lies whose anchor `alignment` is at `pos`.
pub open spec fn left_edge(pos: Point, alignment: anchor::X, width: int) -> int {
    pos.x - alignment.spec_offset(width)
}

impl<FontId, FgId> Writer<FontId, FgId> {
    /// The point used as the anchor for the writing.
    pub closed spec fn spec_pos(&self) -> Point {
        self.pos
    }

    /// The alignment for the writing.
    pub closed spec fn spec_alignment(&self) -> anchor::X {
        self.alignment
    }

    /// The font being used for writing.
    pub closed spec fn font_id(&self) -> FontId {
        self.font
    }

    /// The foreground colour being used for writing.
    pub closed spec fn fg_id(&self) -> FgId {
        self.fg
    }

    /// The most recent layout.
    pub closed spec fn laid_out(&self) -> font::layout::String {
        self.layout
    }

    /// The string to be written.
    pub open spec fn string(&self) -> Seq<char> {
        self.laid_out().string@
    }

    /// The bounding box of the most recent layout.
    pub open spec fn bounds(&self) -> Rect {
        self.laid_out().bounds
    }

    /// The glyphs of the most recent layout.
    pub open spec fn glyphs(&self) -> Map<Rect, Seq<Delta>> {
        self.laid_out().glyphs@
    }

    /// Whether the most recent layout is taken to be that of the string to be written.
    ///
    /// It is, once the string has been laid out, until the string or the alignment changes.
    pub closed spec fn is_reusable(&self) -> bool {
        self.layout_reusable
    }

    /// Whether this writer can lay out its string in the font with metrics `metrics`: the
    /// string can be laid out with the alignment of the writer, and the left edge of the
    /// writing can be held in a length.
    pub open spec fn can_lay_out(&self, metrics: &font::Metrics) -> bool {
        &&& model::alignable(metrics, self.string(), self.spec_alignment())
        &&& fits(
            left_edge(
                self.spec_pos(),
                self.spec_alignment(),
                model::measured(metrics, self.string()).w as int,
            ),
        )
    }

    /// Whether the most recent layout is that of the string to be written, in the font with
    /// metrics `metrics`, placed so that its anchor is at the position of the writer.
    pub open spec fn shows(&self, metrics: &font::Metrics) -> bool {
        &&& self.bounds().size == model::measured(metrics, self.string())
        &&& self.bounds().top_left.x == left_edge(
            self.spec_pos(),
            self.spec_alignment(),
            self.bounds().size.w as int,
        )
        &&& self.bounds().top_left.y == self.spec_pos().y
        &&& self.glyphs() == model::layout_glyphs(
            metrics,
            self.string(),
            self.spec_alignment(),
        )
    }

    /// Constructs a new writer with the given font and colours.
    pub fn new(font: FontId, fg: FgId) -> (writer: Self)
        ensures
            writer.spec_pos() == (Point { x: 0, y: 0 }),
            writer.spec_alignment() == anchor::X::Left,
            writer.font_id() == font,
            writer.fg_id() == fg,
            writer.string() == Seq::<char>::empty(),
            writer.bounds() == Rect::zero(),
            writer.glyphs() == Map::<Rect, Seq<Delta>>::empty(),
            !writer.is_reusable(),
    {
        Self {
            pos: Point::default(),
            alignment: anchor::X::Left,
            font,
            fg,
            layout: font::layout::String::default(),
            layout_reusable: false,
        }
    }

    /// Lays out the current string.
    ///
    /// If the string and the alignment are the same as the last time this writer laid a
    /// string out, there is no layout calculation.  This means it is useful to reuse writers
    /// across frames.
    pub fn layout<M: ResourceMap<font::Metrics, Id = FontId>>(&mut self, metrics: &M) where
        FontId: Copy,

        requires
            !old(self).is_reusable() ==> metrics.is_reliable() && old(self).can_lay_out(
                &metrics.resource(old(self).font_id()),
            ),
        ensures
            final(self).is_reusable(),
            final(self).spec_pos() == old(self).spec_pos(),
            final(self).spec_alignment() == old(self).spec_alignment(),
            final(self).font_id() == old(self).font_id(),
            final(self).fg_id() == old(self).fg_id(),
            final(self).string() == old(self).string(),
            old(self).is_reusable() ==> final(self).bounds() == old(self).bounds()
                && final(self).glyphs() == old(self).glyphs(),
            !old(self).is_reusable() ==> final(self).shows(
                &metrics.resource(old(self).font_id()),
            ),
    {
        // Optimistically assume that the next time we call `layout`, everything will be the same.
        let reusable = self.layout_reusable;
        self.layout_reusable = true;
        if !reusable {
            self.actually_layout(metrics);
        }
    }

    /// Lays out the current string using `metrics`.
    fn actually_layout<M: ResourceMap<font::Metrics, Id = FontId>>(&mut self, metrics: &M) where
        FontId: Copy,

        requires
            metrics.is_reliable(),
            old(self).can_lay_out(&metrics.resource(old(self).font_id())),
        ensures
            final(self).is_reusable() == old(self).is_reusable(),
            final(self).spec_pos() == old(self).spec_pos(),
            final(self).spec_alignment() == old(self).spec_alignment(),
            final(self).font_id() == old(self).font_id(),
            final(self).fg_id() == old(self).fg_id(),
            final(self).string() == old(self).string(),
            final(self).shows(&metrics.resource(old(self).font_id())),
    {
        let fm = metrics.get(self.font);

        let mut current_string = font::layout::String::default();
        core::mem::swap(&mut self.layout, &mut current_string);

        self.layout = font::layout::Builder::new(fm).with_alignment(self.alignment).build(
            current_string.string,
        );
        self.reposition_layout();
    }

    /// Renders the most recently written string: asks `r` to write the most recent layout with
    /// the font and the foreground colour of this writer, and answers what `r` answers.
    ///
    /// # Errors
    ///
    /// Fails if the renderer can't blit glyphs to the screen.
    pub fn render<BgId, R: Renderer<FontId, FgId, BgId>>(&self, r: &mut R) -> (result:
        error::Result<()>) where FontId: Copy, FgId: Copy
        ensures
            exists|renderer: &mut R|
                {
                    &&& *renderer == *old(r)
                    &&& #[trigger] call_ensures(
                        R::write,
                        (renderer, self.font_id(), self.fg_id(), &self.laid_out()),
                        result,
                    )
                    &&& *final(renderer) == *final(r)
                },
    {
        assert(self.font_id() == self.font && self.fg_id() == self.fg && self.laid_out()
            == self.layout);
        r.write(self.font, self.fg, &self.layout)
    }

    /// Gets the font of this writer.
    pub fn font(&self) -> (font: FontId) where FontId: Copy
        ensures
            font == self.font_id(),
    {
        self.font
    }

    /// Gets the alignment of this writer.
    pub fn alignment(&self) -> (alignment: anchor::X)
        ensures
            alignment == self.spec_alignment(),
    {
        self.alignment
    }

    /// Sets the alignment of this writer to `alignment`.
    ///
    /// A new alignment asks for a new layout.
    pub fn align_to(&mut self, alignment: anchor::X)
        ensures
            final(self).spec_alignment() == alignment,
            final(self).is_reusable() == (old(self).is_reusable() && old(self).spec_alignment()
                == alignment),
            final(self).spec_pos() == old(self).spec_pos(),
            final(self).font_id() == old(self).font_id(),
            final(self).fg_id() == old(self).fg_id(),
            final(self).laid_out() == old(self).laid_out(),
    {
        if self.alignment != alignment {
            self.alignment = alignment;

            self.layout_reusable = false;
        }
    }

    /// Gets the position of this writer.
    pub fn pos(&self) -> (pos: Point)
        ensures
            pos == self.spec_pos(),
    {
        self.pos
    }

    /// Sets the position of this writer to `pos`.
    ///
    /// The most recent layout moves with the writer.
    pub fn move_to(&mut self, pos: Point)
        requires
            pos != old(self).spec_pos() ==> fits(
                left_edge(pos, old(self).spec_alignment(), old(self).bounds().size.w as int),
            ),
        ensures
            final(self).spec_pos() == pos,
            final(self).spec_alignment() == old(self).spec_alignment(),
            final(self).is_reusable() == old(self).is_reusable(),
            final(self).font_id() == old(self).font_id(),
            final(self).fg_id() == old(self).fg_id(),
            final(self).string() == old(self).string(),
            final(self).bounds().size == old(self).bounds().size,
            final(self).glyphs() == old(self).glyphs(),
            pos == old(self).spec_pos() ==> final(self).bounds() == old(self).bounds(),
            pos != old(self).spec_pos() ==> final(self).bounds().top_left.x == left_edge(
                pos,
                old(self).spec_alignment(),
                old(self).bounds().size.w as int,
            ) && final(self).bounds().top_left.y == pos.y,
    {
        if self.pos != pos {
            self.pos = pos;
            self.reposition_layout();
        }
    }

    /// Sets the font of this writer to `font`.
    pub fn set_font(&mut self, font: FontId)
        ensures
            final(self).font_id() == font,
            final(self).spec_pos() == old(self).spec_pos(),
            final(self).spec_alignment() == old(self).spec_alignment(),
            final(self).is_reusable() == old(self).is_reusable(),
            final(self).fg_id() == old(self).fg_id(),
            final(self).laid_out() == old(self).laid_out(),
    {
        self.font = font;
    }

    /// Sets the foreground colour of this writer to `fg`.
    pub fn set_fg(&mut self, fg: FgId)
        ensures
            final(self).fg_id() == fg,
            final(self).spec_pos() == old(self).spec_pos(),
            final(self).spec_alignment() == old(self).spec_alignment(),
            final(self).is_reusable() == old(self).is_reusable(),
            final(self).font_id() == old(self).font_id(),
            final(self).laid_out() == old(self).laid_out(),
    {
        self.fg = fg;
    }

    /// Sets the string-to-be-rendered to `str`.
    ///
    /// A new string asks for a new layout.
    pub fn set_string(&mut self, str: &str)
        ensures
            final(self).string() == str@,
            final(self).is_reusable() == (old(self).is_reusable() && old(self).string() == str@),
            final(self).spec_pos() == old(self).spec_pos(),
            final(self).spec_alignment() == old(self).spec_alignment(),
            final(self).font_id() == old(self).font_id(),
            final(self).fg_id() == old(self).fg_id(),
            final(self).bounds() == old(self).bounds(),
            final(self).glyphs() == old(self).glyphs(),
    {
        // Store the new string inside the layout; we'll recompute the rest in a bit.
        let mut old_str = str.to_owned();
        core::mem::swap(&mut self.layout.string, &mut old_str);
        // The layout needs to be junked if the string has changed.
        let same = old_str == self.layout.string;
        self.layout_reusable = self.layout_reusable && same;
    }

    /// Moves the string layout to the correct position.
    fn reposition_layout(&mut self)
        requires
            fits(
                left_edge(
                    old(self).spec_pos(),
                    old(self).spec_alignment(),
                    old(self).bounds().size.w as int,
                ),
            ),
        ensures
            final(self).bounds().top_left.x == left_edge(
                old(self).spec_pos(),
                old(self).spec_alignment(),
                old(self).bounds().size.w as int,
            ),
            final(self).bounds().top_left.y == old(self).spec_pos().y,
            final(self).bounds().size == old(self).bounds().size,
            final(self).glyphs() == old(self).glyphs(),
            final(self).string() == old(self).string(),
            final(self).spec_pos() == old(self).spec_pos(),
            final(self).spec_alignment() == old(self).spec_alignment(),
            final(self).is_reusable() == old(self).is_reusable(),
            final(self).font_id() == old(self).font_id(),
            final(self).fg_id() == old(self).fg_id(),
    {
        self.layout.bounds.top_left = self.pos;

        // No point doing offsets if the anchor is left; the offset would be 0.
        if let anchor::X::Left = self.alignment {
            return ;
        }
        // The offset of the alignment is the number of pixels between the left and the anchor,
        // so we need to move so that the position (which is currently the left) is *on* that
        // anchor.  This means the offset must be backwards.

        self.layout.bounds.top_left.x -= self.alignment.offset(self.layout.bounds.size.w);
    }
}

} // verus!
