//! Font metrics.

pub mod chars;
pub mod kerning;
pub mod width;

use vstd::prelude::*;

use crate::font::error::Error;
use crate::font::layout;
use crate::font::layout::model;
use crate::metrics::anchor;
use crate::metrics::length::{fits, Length};
use crate::metrics::point::Point;
use crate::metrics::rect::Rect;
use crate::metrics::size::Size;

verus! {

/// The number of columns in a font texture.
pub const NUM_COLS: u8 = 32;

/// A font metrics specification, as a font's metrics file holds it.
///
/// This is expanded into a proper metrics set before consumption.
#[derive(Clone, Debug)]
pub struct Spec {
    /// Dimensions of one character in the font, without padding.
    ///
    /// This is also the size of one cell in the texture grid.
    pub char: Size,
    /// Dimensions of padding between characters in the font.
    pub pad: Size,
    /// Class-based width overrides for specific characters.
    ///
    /// Each override maps each of the characters in its given string to the given length.
    ///
    /// The font grid is determined by `char`, so this cannot make a character wider than
    /// `char.w`.
    pub width_overrides: width::Spec,
    /// Class-based kerning for specific characters.
    pub kerning: kerning::Spec,
}

/// The default specification has empty cells, no padding, no override and no kerning.
impl Default for Spec {
    fn default() -> (spec: Self)
        ensures
            spec.char == (Size { w: 0, h: 0 }),
            spec.pad == (Size { w: 0, h: 0 }),
            spec.width_overrides@.len() == 0,
            spec.kerning.left@.len() == 0,
            spec.kerning.right@.len() == 0,
            spec.kerning.pairs@.len() == 0,
    {
        Spec {
            char: Size { w: 0, h: 0 },
            pad: Size { w: 0, h: 0 },
            width_overrides: width::Spec::default(),
            kerning: kerning::Spec::default(),
        }
    }
}

impl Spec {
    /// Expands this metrics spec into a full metrics set.
    ///
    /// A character is as wide as a cell unless an override says otherwise, and the spacing
    /// between two characters is the horizontal padding unless a kerning pair says otherwise.
    ///
    /// # Errors
    ///
    /// Fails if the metrics spec is ill-formed: if a kerning pair names a missing class, or
    /// else if a width override tries to make a character wider than a cell.
    pub fn into_metrics(self) -> (result: Result<Metrics, Error>)
        ensures
            match result {
                Ok(metrics) => {
                    &&& metrics.char == self.char
                    &&& metrics.pad == self.pad
                    &&& self.kerning.first_fault(self.kerning.pairs@.len() as int) is None
                    &&& width::first_oversize(
                        self.width_overrides@,
                        self.char.w,
                        self.width_overrides@.len() as int,
                    ) is None
                    &&& metrics.chars.compiles(
                        &self.width_overrides,
                        self.char.w,
                        &self.kerning,
                        self.pad.w,
                    )
                    &&& forall|c: char| #[trigger] metrics.chars.width(c) <= metrics.char.w
                },
                Err(Error::Kerning(kerning::Error::MissingClass { dir, class })) => {
                    self.kerning.first_fault(self.kerning.pairs@.len() as int) == Some(
                        (dir, class@),
                    )
                },
                Err(Error::OverlyLargeOverride { grid_width, override_width }) => {
                    &&& self.kerning.first_fault(self.kerning.pairs@.len() as int) is None
                    &&& grid_width == self.char.w
                    &&& width::first_oversize(
                        self.width_overrides@,
                        self.char.w,
                        self.width_overrides@.len() as int,
                    ) == Some(override_width)
                },
                Err(_) => false,
            },
    {
        let chars = match chars::Table::new(
            self.width_overrides,
            self.char.w,
            self.kerning,
            self.pad.w,
        ) {
            Ok(chars) => chars,
            Err(error) => {
                return Err(error);
            },
        };
        proof {
            chars.lemma_compiled_widths_fit(
                &self.width_overrides,
                self.char.w,
                &self.kerning,
                self.pad.w,
            );
        }
        Ok(Metrics { char: self.char, pad: self.pad, chars })
    }
}

/// A font metrics set.
///
/// The default metrics set has everything set to zero, and is useless for anything other than
/// standing in for missing font metrics.
#[derive(Clone, Debug)]
pub struct Metrics {
    /// Dimensions of one character in the font, without padding.
    ///
    /// This is also the size of one cell in the texture grid.
    pub char: Size,
    /// Dimensions of padding between characters in the font.
    pub pad: Size,
    /// Map of characters to their width and kerning information.
    pub chars: chars::Table,
}

/// The default metrics set has empty cells, no padding, and the default character table.
impl Default for Metrics {
    fn default() -> (metrics: Self)
        ensures
            metrics.char == (Size { w: 0, h: 0 }),
            metrics.pad == (Size { w: 0, h: 0 }),
            forall|c: char| #[trigger] metrics.chars.entry(c).width == 0,
            forall|c: char| #[trigger] metrics.chars.entry(c).rights is None,
            forall|c: char| #[trigger] metrics.chars.entry(c).default_kerning == 0,
    {
        Metrics {
            char: Size { w: 0, h: 0 },
            pad: Size { w: 0, h: 0 },
            chars: chars::Table::default(),
        }
    }
}

/// The column of the texture grid that holds the glyph with code `code`.
pub open spec fn spec_glyph_col(code: int) -> int {
    code % (NUM_COLS as int)
}

/// The row of the texture grid that holds the glyph with code `code`.
pub open spec fn spec_glyph_row(code: int) -> int {
    code / (NUM_COLS as int)
}

/// Whether the texture grid has a cell for character `c`: it has one for each single-byte code.
pub open spec fn on_grid(c: char) -> bool {
    (c as u32) <= u8::MAX
}

impl Metrics {
    /// The padded width of one character in the font.
    pub open spec fn spec_padded_w(&self) -> int {
        self.char.w + self.pad.w
    }

    /// The padded height of one character in the font.
    pub open spec fn spec_padded_h(&self) -> int {
        self.char.h + self.pad.h
    }

    /// The X coordinate in the texture of the left edge of the glyph for `c`.
    pub open spec fn glyph_left(&self, c: char) -> int {
        if on_grid(c) {
            spec_glyph_col(c as u32 as int) * self.spec_padded_w()
        } else {
            0
        }
    }

    /// The Y coordinate in the texture of the top edge of the glyph for `c`.
    pub open spec fn glyph_top(&self, c: char) -> int {
        if on_grid(c) {
            spec_glyph_row(c as u32 as int) * self.spec_padded_h()
        } else {
            0
        }
    }

    /// Whether the top-left corner of the glyph for `c` can be computed in [`Length`]s.
    pub open spec fn glyph_fits(&self, c: char) -> bool {
        on_grid(c) ==> {
            &&& fits(self.spec_padded_w())
            &&& fits(self.spec_padded_h())
            &&& fits(self.glyph_left(c))
            &&& fits(self.glyph_top(c))
        }
    }

    /// The padded width of one character in the font.
    #[must_use]
    pub fn padded_w(&self) -> (w: Length)
        requires
            fits(self.spec_padded_w()),
        ensures
            w == self.spec_padded_w(),
    {
        self.char.w + self.pad.w
    }

    /// The padded height of one character in the font.
    #[must_use]
    pub fn padded_h(&self) -> (h: Length)
        requires
            fits(self.spec_padded_h()),
        ensures
            h == self.spec_padded_h(),
    {
        self.char.h + self.pad.h
    }

    /// Signed maximal size of a horizontal span `size` characters wide.
    ///
    /// This is `size` times the padded width of the font, whatever the kerning and the widths
    /// of single characters.  It serves to align items on a character grid, and may
    /// overestimate widths on proportional fonts.
    ///
    /// If `size` is negative, the result will be negative.
    #[must_use]
    pub fn span_w(&self, size: Length) -> (w: Length)
        requires
            fits(self.spec_padded_w()),
            fits(self.spec_padded_w() * size),
        ensures
            w == self.spec_padded_w() * size,
    {
        self.padded_w() * size
    }

    /// Like `span_w`, but accurately calculates the width of `str`.
    ///
    /// This performs the same positioning calculations as text rendering, and is accurate in
    /// the face of any proportionality in the font.
    #[must_use]
    pub fn span_w_str(&self, str: &str) -> (w: Length)
        requires
            model::measurable(self, str@),
        ensures
            w == model::measured(self, str@).w,
    {
        // Pretend to lay out the string, then see how wide it has become.
        layout::Builder::new(self).dry_run(str).size.w
    }

    /// Calculates the relative X-coordinate of `anchor` within `str`.
    #[must_use]
    pub fn x_anchor_of_str(&self, str: &str, anchor: anchor::X) -> (x: Length)
        requires
            anchor != anchor::X::Left ==> model::measurable(self, str@),
        ensures
            x == anchor.spec_offset(model::measured(self, str@).w as int),
    {
        // No need to do layout calculations if we're already at the left.
        if matches!(anchor, anchor::X::Left) {
            0
        } else {
            anchor.offset(self.span_w_str(str))
        }
    }

    /// The width of `c`, as the character table has it.
    #[must_use]
    pub fn span_w_char(&self, c: char) -> (w: Length)
        ensures
            w == self.chars.width(c),
    {
        self.chars.get(c).width
    }

    /// Signed maximal size of a vertical span `size` characters tall.
    ///
    /// This is `size` times the padded height of the font.
    ///
    /// If `size` is negative, the result will be negative.
    #[must_use]
    pub fn span_h(&self, size: Length) -> (h: Length)
        requires
            fits(self.spec_padded_h()),
            fits(self.spec_padded_h() * size),
        ensures
            h == self.spec_padded_h() * size,
    {
        self.padded_h() * size
    }

    /// Converts a size in chars into a size in pixels.
    #[must_use]
    pub fn text_size(&self, w_chars: Length, h_chars: Length) -> (size: Size)
        requires
            fits(self.spec_padded_w()),
            fits(self.spec_padded_h()),
            fits(self.spec_padded_w() * w_chars),
            fits(self.spec_padded_h() * h_chars),
        ensures
            size.w == self.spec_padded_w() * w_chars,
            size.h == self.spec_padded_h() * h_chars,
    {
        Size { w: self.span_w(w_chars), h: self.span_h(h_chars) }
    }

    /// The top-left position of the glyph for `c` in the font texture.
    ///
    /// The glyphs sit in a grid of [`NUM_COLS`] columns, in the order of their codes.  A
    /// character without a cell of its own is sent to the first cell.
    #[must_use]
    pub fn glyph_top_left(&self, c: char) -> (top_left: Point)
        requires
            self.glyph_fits(c),
        ensures
            top_left.x == self.glyph_left(c),
            top_left.y == self.glyph_top(c),
    {
        match char_to_ascii(c) {
            Some(g) => Point {
                x: glyph_axis(glyph_col(g), self.padded_w()),
                y: glyph_axis(glyph_row(g), self.padded_h()),
            },
            None => Point { x: 0, y: 0 },
        }
    }
}

/// Calculates one axis of the top-left of the glyph.
#[must_use]
fn glyph_axis(index: u8, size: Length) -> (offset: Length)
    requires
        fits(index * size),
    ensures
        offset == index * size,
{
    // The index is widened before the product, which fits where the index times size does not
    // fit in the index's own type.
    let index: Length = index as Length;
    index * size
}

/// The column of a glyph in the font.
#[must_use]
pub fn glyph_col(code: u8) -> (col: u8)
    ensures
        col == spec_glyph_col(code as int),
{
    code % NUM_COLS
}

/// The row of a glyph in the font.
#[must_use]
pub fn glyph_row(code: u8) -> (row: u8)
    ensures
        row == spec_glyph_row(code as int),
{
    code / NUM_COLS
}

/// The single-byte code of `c`, if it has one.
fn char_to_ascii(c: char) -> (code: Option<u8>)
    ensures
        code == (if on_grid(c) {
            Some(c as u32 as u8)
        } else {
            None
        }),
{
    let point = c as u32;
    if point <= 255 {
        Some(point as u8)
    } else {
        None
    }
}

} // verus!
