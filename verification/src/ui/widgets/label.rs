//! Label widgets.

use std::hash::Hash;
use vstd::prelude::*;

use super::super::layout::{Boundable, LayoutContext, Layoutable};
use super::super::render::Renderable;
use super::super::update::Updatable;
use crate::font;
use crate::metrics;
use crate::metrics::length::fits;
use crate::render::Renderer;
use crate::resource::ResourceMap;
use crate::text::{left_edge, Writer};

verus! {

/// A widget that displays a static single-line string with a static font.
///
/// `FontId`, `FgId`, and `BgId` are the usual font and colour ID types.
#[derive(Clone)]
pub struct Label<FontId, FgId, BgId> {
    /// The most recently computed bounding box for the label.
    bounds: metrics::Rect,
    /// The writer for the label.
    writer: Writer<FontId, FgId>,
    /// The background colour, if any.
    bg: Option<BgId>,
    /// The minimum amount of expected characters in the label.
    pub min_chars: u8,
}

impl<FontId, FgId, BgId> Label<FontId, FgId, BgId> {
    /// The most recently set bounding box of the label.
    pub closed spec fn bounds(&self) -> metrics::Rect {
        self.bounds
    }

    /// The writer of the label.
    pub closed spec fn writer(&self) -> Writer<FontId, FgId> {
        self.writer
    }

    /// The background colour of the label, if any.
    pub closed spec fn bg(&self) -> Option<BgId> {
        self.bg
    }

    /// The minimum amount of expected characters in the label.
    pub closed spec fn least_chars(&self) -> u8 {
        self.min_chars
    }

    /// Where the writer of a label with the bounding box `bounds` and the alignment
    /// `alignment` writes: at the top of the box, on the edge that the alignment names.
    pub open spec fn anchor_x(bounds: metrics::Rect, alignment: metrics::anchor::X) -> int {
        bounds.spec_x(0, alignment)
    }

    /// Constructs a label over the given writer.
    #[must_use]
    pub fn new(writer: Writer<FontId, FgId>) -> (label: Self)
        ensures
            label.bounds() == metrics::Rect::zero(),
            label.writer() == writer,
            label.bg() is None,
            label.least_chars() == 0,
    {
        Self { bounds: metrics::Rect::default(), writer, bg: None, min_chars: 0 }
    }

    /// Sets the alignment of the label.
    pub fn align_to(&mut self, alignment: metrics::anchor::X)
        ensures
            final(self).bounds() == old(self).bounds(),
            final(self).bg() == old(self).bg(),
            final(self).least_chars() == old(self).least_chars(),
            final(self).writer().spec_alignment() == alignment,
            final(self).writer().is_reusable() == (old(self).writer().is_reusable() && old(
                self,
            ).writer().spec_alignment() == alignment),
            final(self).writer().spec_pos() == old(self).writer().spec_pos(),
            final(self).writer().font_id() == old(self).writer().font_id(),
            final(self).writer().fg_id() == old(self).writer().fg_id(),
            final(self).writer().laid_out() == old(self).writer().laid_out(),
    {
        self.writer.align_to(alignment);
    }

    /// Sets the minimum character amount of the label.
    pub fn set_min_chars(&mut self, amount: u8)
        ensures
            final(self).least_chars() == amount,
            final(self).bounds() == old(self).bounds(),
            final(self).writer() == old(self).writer(),
            final(self).bg() == old(self).bg(),
    {
        self.min_chars = amount;
    }

    /// Sets the foreground colour of the label.
    pub fn set_fg(&mut self, fg: FgId)
        ensures
            final(self).bounds() == old(self).bounds(),
            final(self).bg() == old(self).bg(),
            final(self).least_chars() == old(self).least_chars(),
            final(self).writer().fg_id() == fg,
            final(self).writer().spec_alignment() == old(self).writer().spec_alignment(),
            final(self).writer().is_reusable() == old(self).writer().is_reusable(),
            final(self).writer().spec_pos() == old(self).writer().spec_pos(),
            final(self).writer().font_id() == old(self).writer().font_id(),
            final(self).writer().laid_out() == old(self).writer().laid_out(),
    {
        self.writer.set_fg(fg);
    }

    /// Sets the background colour of the label.
    pub fn set_bg(&mut self, bg: Option<BgId>)
        ensures
            final(self).bg() == bg,
            final(self).bounds() == old(self).bounds(),
            final(self).writer() == old(self).writer(),
            final(self).least_chars() == old(self).least_chars(),
    {
        self.bg = bg;
    }

    /// Sets the font of the label.
    pub fn set_font(&mut self, font: FontId)
        ensures
            final(self).bounds() == old(self).bounds(),
            final(self).bg() == old(self).bg(),
            final(self).least_chars() == old(self).least_chars(),
            final(self).writer().font_id() == font,
            final(self).writer().spec_alignment() == old(self).writer().spec_alignment(),
            final(self).writer().is_reusable() == old(self).writer().is_reusable(),
            final(self).writer().spec_pos() == old(self).writer().spec_pos(),
            final(self).writer().fg_id() == old(self).writer().fg_id(),
            final(self).writer().laid_out() == old(self).writer().laid_out(),
    {
        self.writer.set_font(font);
    }

    /// Updates the label with the string `str`.
    ///
    /// Does not re-layout the string, and so the string will not be updated until `layout` is
    /// called.
    pub fn update_display(&mut self, str: &str)
        ensures
            final(self).bounds() == old(self).bounds(),
            final(self).bg() == old(self).bg(),
            final(self).least_chars() == old(self).least_chars(),
            final(self).writer().string() == str@,
            final(self).writer().is_reusable() == (old(self).writer().is_reusable() && old(
                self,
            ).writer().string() == str@),
            final(self).writer().spec_alignment() == old(self).writer().spec_alignment(),
            final(self).writer().spec_pos() == old(self).writer().spec_pos(),
            final(self).writer().font_id() == old(self).writer().font_id(),
            final(self).writer().fg_id() == old(self).writer().fg_id(),
            final(self).writer().bounds() == old(self).writer().bounds(),
            final(self).writer().glyphs() == old(self).writer().glyphs(),
    {
        self.writer.set_string(str);
    }

    /// The position of the writer: at the top of the bounding box, on the edge that the
    /// alignment of the writer names.
    fn writer_pos(&self) -> (pos: metrics::Point)
        requires
            fits(Self::anchor_x(self.bounds(), self.writer().spec_alignment())),
        ensures
            pos.x == Self::anchor_x(self.bounds(), self.writer().spec_alignment()),
            pos.y == self.bounds().top_left.y,
    {
        self.bounds.anchor(
            metrics::anchor::Anchor { x: self.writer.alignment(), y: metrics::anchor::Y::Top },
        )
    }
}

/// We can bound a label.
impl<FontId, FgId, BgId> Boundable for Label<FontId, FgId, BgId> {
    /// A label takes a bounding box where the edge that its alignment names, and the left
    /// edge of its writing from there, can be held in lengths.
    open spec fn takes_bounds(&self, bounds: metrics::Rect) -> bool {
        let x = Self::anchor_x(bounds, self.writer().spec_alignment());
        &&& fits(x)
        &&& fits(x - self.writer().spec_alignment().spec_offset(self.writer().bounds().size.w as int))
    }

    /// Sets the bounding box of the label, and moves its writer to the top of the box, on the
    /// edge that its alignment names.
    fn set_bounds(&mut self, bounds: metrics::Rect)
        ensures
            final(self).bounds() == bounds,
            final(self).bg() == old(self).bg(),
            final(self).least_chars() == old(self).least_chars(),
            final(self).writer().spec_pos().x == Self::anchor_x(
                bounds,
                old(self).writer().spec_alignment(),
            ),
            final(self).writer().spec_pos().y == bounds.top_left.y,
            final(self).writer().spec_alignment() == old(self).writer().spec_alignment(),
            final(self).writer().is_reusable() == old(self).writer().is_reusable(),
            final(self).writer().font_id() == old(self).writer().font_id(),
            final(self).writer().fg_id() == old(self).writer().fg_id(),
            final(self).writer().string() == old(self).writer().string(),
            final(self).writer().bounds().size == old(self).writer().bounds().size,
            final(self).writer().glyphs() == old(self).writer().glyphs(),
    {
        self.bounds = bounds;
        let pos = self.writer_pos();
        self.writer.move_to(pos);
    }
}

/// We can layout a label, so long as the context serves font metrics for the font ID set in use.
impl<Ctx, FontId, FgId, BgId> Layoutable<Ctx> for Label<FontId, FgId, BgId> where
    Ctx: LayoutContext<FontId>,
    FontId: Copy + Clone + Default + Eq + Hash,
 {
    /// A label can be measured where its font is known and the size of its characters can be
    /// held in lengths.
    open spec fn can_measure(&self, ctx: &Ctx) -> bool {
        let metrics = ctx.metrics().resource(self.writer().font_id());
        &&& ctx.is_reliable()
        &&& ctx.metrics().is_reliable()
        &&& fits(metrics.spec_padded_w())
        &&& fits(metrics.spec_padded_h())
        &&& fits(metrics.spec_padded_w() * self.least_chars())
    }

    /// A label can be laid out where its layout is there to be used again, or its font is
    /// known and its writer can lay out its string in that font.
    open spec fn can_lay_out(&self, ctx: &Ctx) -> bool {
        !self.writer().is_reusable() ==> {
            &&& ctx.is_reliable()
            &&& ctx.metrics().is_reliable()
            &&& self.writer().can_lay_out(&ctx.metrics().resource(self.writer().font_id()))
        }
    }

    /// The minimal size of a label is that of one line of as many characters as the label
    /// expects at least, each as wide as a cell of the font and its padding.
    fn min_bounds(&self, ctx: &Ctx) -> (size: metrics::Size)
        ensures
            size.w == ctx.metrics().resource(self.writer().font_id()).spec_padded_w()
                * self.least_chars(),
            size.h == ctx.metrics().resource(self.writer().font_id()).spec_padded_h(),
    {
        let amount: i32 = self.min_chars as i32;
        ctx.font_metrics().get(self.writer.font()).text_size(amount, 1)
    }

    /// Lays out the string of the label, unless its layout is there to be used again.
    fn layout(&mut self, ctx: &Ctx)
        ensures
            final(self).bounds() == old(self).bounds(),
            final(self).bg() == old(self).bg(),
            final(self).least_chars() == old(self).least_chars(),
            final(self).writer().is_reusable(),
            final(self).writer().spec_pos() == old(self).writer().spec_pos(),
            final(self).writer().spec_alignment() == old(self).writer().spec_alignment(),
            final(self).writer().font_id() == old(self).writer().font_id(),
            final(self).writer().fg_id() == old(self).writer().fg_id(),
            final(self).writer().string() == old(self).writer().string(),
            old(self).writer().is_reusable() ==> final(self).writer().bounds() == old(
                self,
            ).writer().bounds() && final(self).writer().glyphs() == old(self).writer().glyphs(),
            !old(self).writer().is_reusable() ==> final(self).writer().shows(
                &ctx.metrics().resource(old(self).writer().font_id()),
            ),
    {
        self.writer.layout(ctx.font_metrics());
    }
}

/// We can update a label.
impl<FontId, FgId, BgId> Updatable for Label<FontId, FgId, BgId> {
    type State = str;

    /// Updates the label with the string `s`.
    fn update(&mut self, s: &str)
        ensures
            final(self).bounds() == old(self).bounds(),
            final(self).bg() == old(self).bg(),
            final(self).least_chars() == old(self).least_chars(),
            final(self).writer().string() == s@,
            final(self).writer().is_reusable() == (old(self).writer().is_reusable() && old(
                self,
            ).writer().string() == s@),
    {
        self.update_display(s);
    }
}

/// Delegates rendering to the writer.
impl<FontId, FgId, BgId, R: Renderer<FontId, FgId, BgId>> Renderable<R> for Label<
    FontId,
    FgId,
    BgId,
> where FontId: Copy, FgId: Copy, BgId: Copy {
    /// Fills the bounding box of the label with its background colour, if it has one, and
    /// then renders its writer.
    fn render(&self, r: &mut R) -> (result: crate::Result<()>)
        ensures
            self.bg() is None ==> exists|writer: &mut R|
                {
                    &&& *writer == *old(r)
                    &&& #[trigger] call_ensures(
                        R::write,
                        (
                            writer,
                            self.writer().font_id(),
                            self.writer().fg_id(),
                            &self.writer().laid_out(),
                        ),
                        result,
                    )
                    &&& *final(writer) == *final(r)
                },
            self.bg() is Some ==> exists|filler: &mut R, filled: crate::Result<()>|
                {
                    &&& *filler == *old(r)
                    &&& #[trigger] call_ensures(
                        R::fill,
                        (filler, self.bounds(), self.bg()->0),
                        filled,
                    )
                    &&& filled is Err ==> result == filled && *final(filler) == *final(r)
                    &&& filled is Ok ==> exists|writer: &mut R|
                        {
                            &&& *writer == *final(filler)
                            &&& #[trigger] call_ensures(
                                R::write,
                                (
                                    writer,
                                    self.writer().font_id(),
                                    self.writer().fg_id(),
                                    &self.writer().laid_out(),
                                ),
                                result,
                            )
                            &&& *final(writer) == *final(r)
                        }
                },
    {
        assert(self.bg() == self.bg && self.bounds() == self.bounds && self.writer()
            == self.writer);
        if let Some(bg) = self.bg {
            match r.fill(self.bounds, bg) {
                Ok(()) => {},
                Err(error) => {
                    return Err(error);
                },
            }
        }
        self.writer.render(r)
    }
}

} // verus!
