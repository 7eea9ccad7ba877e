//! Laws of the layout algorithm.
//!
//! Each law is a proof about the layout pass that [`model`](super::model) defines, and so
//! about the strings that the executable layout code lays out.

use vstd::prelude::*;

use super::model::{
    aligned, alignable, dry_run_bounds, layout_bounds, line_aligns, measurable, placed, shift,
    Line, Pass, Placement,
};
use crate::font::metrics::{on_grid, spec_glyph_col, spec_glyph_row};
use crate::metrics::length::{fits, spec_max};
use crate::font::metrics::Metrics;
use crate::metrics::anchor;
use crate::metrics::point::Point;

verus! {

/// A dry run measures what a layout takes: the bounds that a dry run finds for a string are
/// those of the string laid out at the origin, and of the size of the string laid out
/// anywhere.
pub proof fn lemma_dry_run_measures_layout(metrics: &Metrics, text: Seq<char>, start: Point)
    ensures
        dry_run_bounds(metrics, text).size == layout_bounds(metrics, text, start).size,
        dry_run_bounds(metrics, text) == layout_bounds(metrics, text, Point { x: 0, y: 0 }),
{
}

/// The alignment of a string does not change its size, nor how many glyphs it has.
pub proof fn lemma_alignment_keeps_size(metrics: &Metrics, text: Seq<char>, alignment: anchor::X)
    ensures
        placed(metrics, text, alignment).len() == placed(metrics, text, anchor::X::Left).len(),
{
    let pass = Pass::finished(metrics, text);
    lemma_collected_len(pass.lines, alignment, anchor::X::Left, pass.width);
}

/// Lines that are aligned one way have as many glyphs as when they are aligned another way.
proof fn lemma_collected_len(lines: Seq<Line>, one: anchor::X, other: anchor::X, total: int)
    ensures
        super::model::collected(lines, one, total).len() == super::model::collected(
            lines,
            other,
            total,
        ).len(),
    decreases lines.len(),
{
    if lines.len() > 0 {
        lemma_collected_len(lines.drop_last(), one, other, total);
    }
}

/// Whether the lines of `pass` are stacked as a pass stacks them.
///
/// Each finished line has a width other than zero.  The first line is as tall as a character,
/// and each line after it as tall as a character and the padding above it; the line in
/// progress is no different.  The finished lines together are as tall as all of them, and as
/// wide as the widest of them: no narrower than any, and as wide as one of them unless none is
/// wider than nothing.
pub open spec fn stacked(metrics: &Metrics, pass: Pass) -> bool {
    let n = pass.lines.len() as int;
    &&& forall|i: int| 0 <= i < n ==> (#[trigger] pass.lines[i]).width != 0
    &&& forall|i: int|
        0 <= i < n ==> (#[trigger] pass.lines[i]).height == (if i == 0 {
            metrics.char.h as int
        } else {
            metrics.spec_padded_h()
        })
    &&& pass.line.height == (if n == 0 {
        metrics.char.h as int
    } else {
        metrics.spec_padded_h()
    })
    &&& pass.height == (if n == 0 {
        0
    } else {
        metrics.char.h + (n - 1) * metrics.spec_padded_h()
    })
    &&& pass.cursor_y == n * metrics.spec_padded_h()
    &&& pass.width >= 0
    &&& forall|i: int| 0 <= i < n ==> (#[trigger] pass.lines[i]).width <= pass.width
    &&& pass.width > 0 ==> exists|i: int| 0 <= i < n && (#[trigger] pass.lines[i]).width == pass.width
}

/// Reading a character keeps the lines stacked.
proof fn lemma_feed_stacks(metrics: &Metrics, pass: Pass, c: char)
    requires
        stacked(metrics, pass),
    ensures
        stacked(metrics, pass.feed(metrics, c)),
{
    lemma_line_feed_stacks(metrics, pass);
}

/// A line feed keeps the lines stacked.
proof fn lemma_line_feed_stacks(metrics: &Metrics, pass: Pass)
    requires
        stacked(metrics, pass),
    ensures
        stacked(metrics, pass.line_feed(metrics)),
{
    let next = pass.line_feed(metrics);
    let n = pass.lines.len() as int;
    if pass.line.width != 0 {
        assert forall|i: int| 0 <= i < n + 1 implies (#[trigger] next.lines[i]).width
            <= next.width && next.lines[i].width != 0 && next.lines[i].height == (if i == 0 {
            metrics.char.h as int
        } else {
            metrics.spec_padded_h()
        }) by {
            if i < n {
                assert(next.lines[i] == pass.lines[i]);
            }
        }
        let ph = metrics.spec_padded_h();
        assert((n + 1) * ph == n * ph + ph) by (nonlinear_arith);
        assert((n + 1 - 1) * ph == (n - 1) * ph + ph) by (nonlinear_arith);
        assert(0 * ph == 0) by (nonlinear_arith);
        assert(next.lines.len() == n + 1);
        assert(next.cursor_y == (n + 1) * ph);
        assert(next.height == metrics.char.h + (n + 1 - 1) * ph);
        assert(next.line.height == ph);
        assert(next.width >= 0);
        if next.width > 0 {
            if next.width == pass.line.width {
                assert(next.lines[n].width == next.width);
            } else {
                let i = choose|i: int| 0 <= i < n && (#[trigger] pass.lines[i]).width == pass.width;
                assert(next.lines[i] == pass.lines[i]);
            }
        }
    }
}

/// Multi-line stacking: however a string reads, its lines are stacked.
///
/// A string of `n` lines is as tall as `n` characters and the padding between them, with no
/// padding under the last line, and as wide as its widest line.
pub proof fn lemma_lines_stack(metrics: &Metrics, text: Seq<char>)
    ensures
        stacked(metrics, Pass::after(metrics, text)),
        stacked(metrics, Pass::finished(metrics, text)),
    decreases text.len(),
{
    if text.len() > 0 {
        lemma_lines_stack(metrics, text.drop_last());
        lemma_feed_stacks(metrics, Pass::after(metrics, text.drop_last()), text.last());
    }
    lemma_line_feed_stacks(metrics, Pass::after(metrics, text));
}

/// A pass over a text is the start of a pass reading the text.
pub proof fn lemma_after_is_read(metrics: &Metrics, text: Seq<char>)
    ensures
        Pass::after(metrics, text) == Pass::start(metrics).read(metrics, text),
    decreases text.len(),
{
    if text.len() > 0 {
        lemma_after_is_read(metrics, text.drop_last());
    }
}

/// Reading two texts in a row is reading the first and then the second.
pub proof fn lemma_read_in_a_row(metrics: &Metrics, pass: Pass, first: Seq<char>, second: Seq<char>)
    ensures
        pass.read(metrics, first + second) == pass.read(metrics, first).read(metrics, second),
    decreases second.len(),
{
    if second.len() == 0 {
        assert(first + second =~= first);
    } else {
        assert((first + second).drop_last() =~= first + second.drop_last());
        assert((first + second).last() == second.last());
        lemma_read_in_a_row(metrics, pass, first, second.drop_last());
    }
}

/// Whether two passes are at the same place on their lines: the cursor is as far to the right,
/// the lines are as wide, and the next character is kerned against the same character.
pub open spec fn alike(one: Pass, other: Pass) -> bool {
    &&& one.cursor_x == other.cursor_x
    &&& one.last == other.last
    &&& one.line.width == other.line.width
}

/// A text without line feeds takes two passes that are at the same place on their lines to
/// the same place, and finishes no line.
pub proof fn lemma_line_reads_alike(metrics: &Metrics, one: Pass, other: Pass, text: Seq<char>)
    requires
        alike(one, other),
        !text.contains('\n'),
    ensures
        alike(one.read(metrics, text), other.read(metrics, text)),
        one.read(metrics, text).lines == one.lines,
        one.read(metrics, text).width == one.width,
        one.read(metrics, text).height == one.height,
        one.read(metrics, text).cursor_y == one.cursor_y,
        one.read(metrics, text).line.height == one.line.height,
    decreases text.len(),
{
    if text.len() > 0 {
        let head = text.drop_last();
        assert(text.last() != '\n') by {
            assert(text[text.len() - 1] == text.last());
        }
        assert(!head.contains('\n')) by {
            if head.contains('\n') {
                let i = choose|i: int| 0 <= i < head.len() && head[i] == '\n';
                assert(text[i] == '\n');
            }
        }
        lemma_line_reads_alike(metrics, one, other, head);
    }
}

/// Two lines stack: a text of two lines, each of a width other than zero, is as tall as two
/// characters and the padding between them, and as wide as the wider of its lines.
pub proof fn lemma_two_lines_stack(metrics: &Metrics, first: Seq<char>, second: Seq<char>)
    requires
        !first.contains('\n'),
        !second.contains('\n'),
        Pass::after(metrics, first).line.width != 0,
        Pass::after(metrics, second).line.width != 0,
    ensures
        ({
            let whole = Pass::finished(metrics, first + seq!['\n'] + second);
            &&& whole.lines.len() == 2
            &&& whole.lines[0].width == Pass::after(metrics, first).line.width
            &&& whole.lines[1].width == Pass::after(metrics, second).line.width
            &&& whole.height == 2 * metrics.spec_padded_h() - metrics.pad.h
            &&& whole.width == spec_max(
                Pass::finished(metrics, first).width,
                Pass::finished(metrics, second).width,
            )
        }),
{
    let start = Pass::start(metrics);
    let text = first + seq!['\n'] + second;
    lemma_after_is_read(metrics, first);
    lemma_after_is_read(metrics, second);
    lemma_after_is_read(metrics, text);
    lemma_read_in_a_row(metrics, start, first + seq!['\n'], second);
    lemma_read_in_a_row(metrics, start, first, seq!['\n']);
    let upper = start.read(metrics, first);
    lemma_line_reads_alike(metrics, start, start, first);
    let fed = upper.read(metrics, seq!['\n']);
    assert(fed == upper.feed(metrics, '\n')) by {
        assert(seq!['\n'].drop_last() =~= Seq::<char>::empty());
        assert(upper.read(metrics, seq!['\n'].drop_last()) == upper);
        assert(seq!['\n'].last() == '\n');
    }
    assert(upper == Pass::after(metrics, first));
    assert(upper.lines =~= Seq::<Line>::empty());
    assert(fed == upper.line_feed(metrics));
    assert(alike(fed, start));
    lemma_line_reads_alike(metrics, fed, start, second);
    let lower = fed.read(metrics, second);
    assert(start.read(metrics, first + seq!['\n']) == fed);
    assert(Pass::after(metrics, text) == lower);
    assert(lower.line.width == Pass::after(metrics, second).line.width);
    let whole = Pass::finished(metrics, text);
    assert(whole == lower.line_feed(metrics));
    assert(fed.lines =~= seq![upper.line]);
    assert(whole.lines =~= seq![upper.line, lower.line]);
    assert(Pass::finished(metrics, first) == upper.line_feed(metrics));
    assert(Pass::finished(metrics, second) == Pass::after(metrics, second).line_feed(metrics));
    lemma_line_reads_alike(metrics, start, start, second);
}

/// Whether `line` is as a pass leaves a line on which no carriage return was read: there is
/// one glyph for each character, and the line ends where its last glyph ends.
pub open spec fn runs_on(metrics: &Metrics, line: Line) -> bool {
    !line.text.contains('\r') ==> {
        &&& line.placed.len() == line.text.len()
        &&& line.text.len() == 0 ==> line.width == 0
        &&& line.text.len() > 0 ==> {
            &&& line.placed.last().c == line.text.last()
            &&& line.placed.last().dx + metrics.chars.width(line.text.last()) == line.width
        }
    }
}

/// Whether every line of `pass` runs on, and the cursor is at the last glyph of the line in
/// progress.
pub open spec fn steady(metrics: &Metrics, pass: Pass) -> bool {
    &&& forall|i: int| 0 <= i < pass.lines.len() ==> runs_on(metrics, #[trigger] pass.lines[i])
    &&& runs_on(metrics, pass.line)
    &&& !pass.line.text.contains('\r') ==> match pass.last {
        Some(p) => pass.line.text.len() > 0 && p == pass.line.text.last() && pass.cursor_x
            == pass.line.placed.last().dx,
        None => pass.line.text.len() == 0 && pass.cursor_x == 0,
    }
}

/// Reading a character keeps a pass steady.
proof fn lemma_feed_is_steady(metrics: &Metrics, pass: Pass, c: char)
    requires
        steady(metrics, pass),
    ensures
        steady(metrics, pass.feed(metrics, c)),
{
    let next = pass.feed(metrics, c);
    if c == '\r' {
        assert(next.line.text.last() == '\r');
        assert(next.line.text.contains('\r'));
    } else if c == '\n' {
        lemma_line_feed_is_steady(metrics, pass);
    } else {
        vstd::seq_lib::lemma_seq_contains_after_push(pass.line.text, c, '\r');
        assert(next.line.text.last() == c);
        assert(next.line.placed.last() == (Placement {
            c,
            dx: pass.next_x(metrics, c),
            dy: pass.cursor_y,
        }));
    }
}

/// A line feed keeps a pass steady.
proof fn lemma_line_feed_is_steady(metrics: &Metrics, pass: Pass)
    requires
        steady(metrics, pass),
    ensures
        steady(metrics, pass.line_feed(metrics)),
{
    let next = pass.line_feed(metrics);
    if pass.line.width != 0 {
        assert forall|i: int| 0 <= i < next.lines.len() implies runs_on(
            metrics,
            #[trigger] next.lines[i],
        ) by {
            if i < pass.lines.len() {
                assert(next.lines[i] == pass.lines[i]);
            }
        }
    }
}

/// However a string reads, the pass over it is steady.
pub proof fn lemma_pass_is_steady(metrics: &Metrics, text: Seq<char>)
    ensures
        steady(metrics, Pass::after(metrics, text)),
        steady(metrics, Pass::finished(metrics, text)),
    decreases text.len(),
{
    if text.len() > 0 {
        lemma_pass_is_steady(metrics, text.drop_last());
        lemma_feed_is_steady(metrics, Pass::after(metrics, text.drop_last()), text.last());
    }
    lemma_line_feed_is_steady(metrics, Pass::after(metrics, text));
}

/// Realignment to the right: in a string that is aligned to the right, the last glyph of each
/// line ends at the right edge of the string.
///
/// This holds of each line on which no carriage return was read.  The last glyph of such a
/// line is that of its last character, and its distance from the left edge is the width of the
/// string less the width of that character.
pub proof fn lemma_right_aligned_line_ends(metrics: &Metrics, text: Seq<char>, i: int)
    requires
        0 <= i < Pass::finished(metrics, text).lines.len(),
        !Pass::finished(metrics, text).lines[i].text.contains('\r'),
    ensures
        ({
            let pass = Pass::finished(metrics, text);
            let line = pass.lines[i];
            let glyphs = aligned(line, anchor::X::Right, pass.width);
            &&& line.text.len() > 0
            &&& glyphs.len() == line.text.len()
            &&& glyphs.last().c == line.text.last()
            &&& glyphs.last().dx == pass.width - metrics.chars.width(line.text.last())
        }),
{
    let pass = Pass::finished(metrics, text);
    let line = pass.lines[i];
    lemma_pass_is_steady(metrics, text);
    lemma_lines_stack(metrics, text);
    assert(runs_on(metrics, line));
    assert(line.width != 0);
    assert(shift(anchor::X::Right, line.width, pass.width) == pass.width - line.width);
}

/// Alignment to the left moves nothing: the glyphs of each line are where the pass put them.
pub proof fn lemma_left_aligned_line_stays(line: Line, total_width: int)
    ensures
        aligned(line, anchor::X::Left, total_width) == line.placed,
{
    assert(aligned(line, anchor::X::Left, total_width) =~= line.placed);
}

/// The widest line of a string that is aligned to the right stays where it is, and every
/// other line moves to the right by what it lacks in width.
pub proof fn lemma_right_aligned_line_moves(metrics: &Metrics, text: Seq<char>, i: int, j: int)
    requires
        0 <= i < Pass::finished(metrics, text).lines.len(),
        0 <= j < Pass::finished(metrics, text).lines[i].placed.len(),
    ensures
        ({
            let pass = Pass::finished(metrics, text);
            let line = pass.lines[i];
            &&& aligned(line, anchor::X::Right, pass.width)[j].dx == line.placed[j].dx
                + pass.width - line.width
            &&& aligned(line, anchor::X::Right, pass.width)[j].dy == line.placed[j].dy
            &&& aligned(line, anchor::X::Right, pass.width)[j].c == line.placed[j].c
            &&& pass.width - line.width >= 0
        }),
{
    lemma_lines_stack(metrics, text);
}

/// Whether `v` lies within `reach` of zero.
pub open spec fn near(v: int, reach: int) -> bool {
    -reach <= v <= reach
}

/// Whether every length of the font with metrics `metrics` lies within `bound` of zero: the
/// sizes of a character and of the padding, the width of each character, and the spacing
/// between each two characters.
pub open spec fn bounded(metrics: &Metrics, bound: int) -> bool {
    &&& near(metrics.char.w as int, bound)
    &&& near(metrics.char.h as int, bound)
    &&& near(metrics.pad.w as int, bound)
    &&& near(metrics.pad.h as int, bound)
    &&& forall|c: char| near(#[trigger] metrics.chars.width(c), bound)
    &&& forall|l: char, r: char| near(#[trigger] metrics.chars.kerning(l, r), bound)
}

/// Whether the width of `line` and the places of its glyphs lie within `reach` of zero.
spec fn line_within(line: Line, reach: int) -> bool {
    &&& near(line.width, reach)
    &&& forall|j: int|
        0 <= j < line.placed.len() ==> near((#[trigger] line.placed[j]).dx, reach) && near(
            line.placed[j].dy,
            reach,
        )
}

/// Whether everything that `pass` has computed lies within `reach` of zero.
spec fn within(pass: Pass, reach: int, bound: int) -> bool {
    &&& near(pass.cursor_x, reach)
    &&& near(pass.cursor_y, reach)
    &&& near(pass.width, reach)
    &&& near(pass.height, reach)
    &&& near(pass.line.height, 2 * bound)
    &&& line_within(pass.line, reach)
    &&& forall|i: int| 0 <= i < pass.lines.len() ==> line_within(#[trigger] pass.lines[i], reach)
}

/// What lies within a reach lies within a longer one.
proof fn lemma_line_within_more(line: Line, reach: int, more: int)
    requires
        line_within(line, reach),
        reach <= more,
    ensures
        line_within(line, more),
{
}

/// A cell of the texture grid lies within 62 times the bound of the font.
proof fn lemma_grid_within(metrics: &Metrics, c: char, bound: int)
    requires
        bounded(metrics, bound),
        62 * bound <= i32::MAX,
    ensures
        metrics.glyph_fits(c),
{
    if on_grid(c) {
        let col = spec_glyph_col(c as u32 as int);
        let row = spec_glyph_row(c as u32 as int);
        let pw = metrics.spec_padded_w();
        let ph = metrics.spec_padded_h();
        assert(0 <= col <= 31);
        assert(0 <= row <= 7);
        assert(near(col * pw, 62 * bound)) by (nonlinear_arith)
            requires
                0 <= col <= 31,
                near(pw, 2 * bound),
        ;
        assert(near(row * ph, 62 * bound)) by (nonlinear_arith)
            requires
                0 <= row <= 7,
                near(ph, 2 * bound),
        ;
    }
}

/// Reading a character takes a pass no further than twice the bound of the font, and stays
/// within lengths where that is within lengths.
proof fn lemma_feed_within(metrics: &Metrics, pass: Pass, c: char, reach: int, bound: int)
    requires
        bounded(metrics, bound),
        within(pass, reach, bound),
        0 <= reach,
        62 * bound <= i32::MAX,
        reach + 2 * bound <= i32::MAX,
    ensures
        within(pass.feed(metrics, c), reach + 2 * bound, bound),
        pass.feed_fits(metrics, c),
        pass.line_feed_fits(metrics),
{
    let next = pass.feed(metrics, c);
    let more = reach + 2 * bound;
    assert forall|i: int| 0 <= i < pass.lines.len() implies line_within(
        #[trigger] pass.lines[i],
        more,
    ) by {
        lemma_line_within_more(pass.lines[i], reach, more);
    }
    lemma_line_within_more(pass.line, reach, more);
    if c == '\r' {
        assert(next.line.placed == pass.line.placed);
    } else if c == '\n' {
        if pass.line.width != 0 {
            assert forall|i: int| 0 <= i < next.lines.len() implies line_within(
                #[trigger] next.lines[i],
                more,
            ) by {
                if i < pass.lines.len() {
                    assert(next.lines[i] == pass.lines[i]);
                }
            }
        }
    } else {
        lemma_grid_within(metrics, c, bound);
        assert(near(metrics.chars.width(c), bound));
        if pass.last is Some {
            let p = pass.last->0;
            assert(near(metrics.chars.width(p), bound));
            assert(near(metrics.chars.kerning(p, c), bound));
        }
        assert forall|j: int| 0 <= j < next.line.placed.len() implies near(
            (#[trigger] next.line.placed[j]).dx,
            more,
        ) && near(next.line.placed[j].dy, more) by {
            if j < pass.line.placed.len() {
                assert(next.line.placed[j] == pass.line.placed[j]);
            }
        }
    }
}

/// Twice the bound of a font for each character is as far as a pass over a text goes.
proof fn lemma_pass_within(metrics: &Metrics, text: Seq<char>, bound: int)
    requires
        bounded(metrics, bound),
        62 * bound <= i32::MAX,
        2 * bound * (text.len() + 1) <= i32::MAX,
    ensures
        Pass::reads(metrics, text),
        within(Pass::after(metrics, text), 2 * bound * text.len(), bound),
        0 <= bound,
    decreases text.len(),
{
    let n = text.len() as int;
    assert(0 <= bound);
    if n > 0 {
        let head = text.drop_last();
        assert(2 * bound * (n - 1 + 1) <= 2 * bound * (n + 1) && 2 * bound * (n - 1) + 2 * bound
            == 2 * bound * n && 0 <= 2 * bound * (n - 1)) by (nonlinear_arith)
            requires
                0 <= bound,
                n >= 1,
        ;
        lemma_pass_within(metrics, head, bound);
        lemma_feed_within(
            metrics,
            Pass::after(metrics, head),
            text.last(),
            2 * bound * (n - 1),
            bound,
        );
    } else {
        assert(2 * bound * 0 == 0);
    }
}

/// A text is within what can be laid out where the font and the text are small enough: with
/// `bound` as the bound of the font, 62 times `bound` and six times `bound` for each character
/// and once more must be within lengths.
///
/// A font of cells of up to a thousand pixels can thus lay out texts of several hundred
/// thousand characters, whatever the alignment.
pub proof fn lemma_bounded_text_is_alignable(
    metrics: &Metrics,
    text: Seq<char>,
    alignment: anchor::X,
    bound: int,
)
    requires
        bounded(metrics, bound),
        62 * bound <= i32::MAX,
        6 * bound * (text.len() + 1) <= i32::MAX,
    ensures
        measurable(metrics, text),
        alignable(metrics, text, alignment),
{
    let n = text.len() as int;
    assert(0 <= bound);
    let reach = 2 * bound * n;
    let more = reach + 2 * bound;
    assert(2 * bound * (n + 1) <= 6 * bound * (n + 1) && 0 <= reach && 3 * more == 6 * bound * (n
        + 1)) by (nonlinear_arith)
        requires
            0 <= bound,
            0 <= n,
            reach == 2 * bound * n,
            more == reach + 2 * bound,
    ;
    lemma_pass_within(metrics, text, bound);
    let last = Pass::after(metrics, text);
    lemma_feed_within(metrics, last, '\n', reach, bound);
    let pass = Pass::finished(metrics, text);
    assert(pass == last.feed(metrics, '\n'));
    assert forall|i: int| 0 <= i < pass.lines.len() implies line_aligns(
        #[trigger] pass.lines[i],
        alignment,
        pass.width,
    ) by {
        let line = pass.lines[i];
        assert(line_within(line, more));
        assert forall|j: int| 0 <= j < line.placed.len() implies fits(
            #[trigger] line.placed[j].dx + shift(alignment, line.width, pass.width),
        ) by {
            assert(near(line.placed[j].dx, more));
        }
    }
}

} // verus!
