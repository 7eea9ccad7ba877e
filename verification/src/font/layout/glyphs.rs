//! Glyph sets: the glyphs of a laid-out string, grouped by where they come from.

use vstd::prelude::*;
use vstd::std_specs::cmp::PartialEqSpecImpl;

use crate::metrics::anchor;
use crate::metrics::length::{fits, Length};
use crate::metrics::point::Delta;
use crate::metrics::rect::Rect;

verus! {

/// A glyph to be rendered: a part of the font texture, and every place where it goes.
#[derive(Debug, PartialEq, Eq)]
pub struct Glyph {
    /// The glyph's source rectangle.
    pub src: Rect,
    /// Where to render the glyph: deltas against the top-left of the laid-out string.  The
    /// rendered size is that of `src`.
    pub dsts: Vec<Delta>,
}

/// The set of glyph positions (source and destination) making up a string.
///
/// The places of a glyph are grouped by its source rectangle, so that a renderer draws each
/// part of the texture in one batch.  The view of a glyph set maps each source rectangle to
/// its places, in the order in which they came.
#[derive(Debug)]
pub struct GlyphSet {
    /// One glyph for each source rectangle.
    glyphs: Vec<Glyph>,
}

/// The places that `glyphs` has from `src`: none, where it does not know `src`.
pub open spec fn places(glyphs: Map<Rect, Seq<Delta>>, src: Rect) -> Seq<Delta> {
    if glyphs.contains_key(src) {
        glyphs[src]
    } else {
        Seq::empty()
    }
}

/// The glyphs `glyphs` and, after them, `deltas` as places of `src`.
pub open spec fn with_places(glyphs: Map<Rect, Seq<Delta>>, src: Rect, deltas: Seq<Delta>) -> Map<
    Rect,
    Seq<Delta>,
> {
    glyphs.insert(src, places(glyphs, src) + deltas)
}

/// The glyphs `first` and, after them, the glyphs `second`.
pub open spec fn merged(first: Map<Rect, Seq<Delta>>, second: Map<Rect, Seq<Delta>>) -> Map<
    Rect,
    Seq<Delta>,
> {
    Map::new(
        |src: Rect| first.contains_key(src) || second.contains_key(src),
        |src: Rect| places(first, src) + places(second, src),
    )
}

/// The delta `delta`, `by` further to the right.
pub open spec fn nudged(delta: Delta, by: int) -> Delta {
    Delta { dx: (delta.dx + by) as i32, dy: delta.dy }
}

/// The glyphs `glyphs`, each place `by` further to the right.
pub open spec fn realigned(glyphs: Map<Rect, Seq<Delta>>, by: int) -> Map<Rect, Seq<Delta>> {
    Map::new(
        |src: Rect| glyphs.contains_key(src),
        |src: Rect| Seq::new(glyphs[src].len(), |i: int| nudged(glyphs[src][i], by)),
    )
}

/// Whether every place in `glyphs` can move `by` to the right within lengths.
pub open spec fn can_realign(glyphs: Map<Rect, Seq<Delta>>, by: int) -> bool {
    forall|src: Rect, i: int|
        glyphs.contains_key(src) && 0 <= i < glyphs[src].len() ==> fits(
            (#[trigger] glyphs[src][i]).dx + by,
        )
}

/// Whether no two of `glyphs` have the same source rectangle.
spec fn distinct(glyphs: Seq<Glyph>) -> bool {
    forall|i: int, j: int|
        0 <= i < j < glyphs.len() ==> (#[trigger] glyphs[i]).src != (#[trigger] glyphs[j]).src
}

/// Whether one of `glyphs` has the source rectangle `src`.
spec fn knows(glyphs: Seq<Glyph>, src: Rect) -> bool {
    exists|i: int| 0 <= i < glyphs.len() && (#[trigger] glyphs[i]).src == src
}

/// The place among `glyphs` of a glyph with the source rectangle `src`.
spec fn place_of(glyphs: Seq<Glyph>, src: Rect) -> int {
    choose|i: int| 0 <= i < glyphs.len() && (#[trigger] glyphs[i]).src == src
}

/// The map from source rectangles to places that `glyphs` stands for.
spec fn as_map(glyphs: Seq<Glyph>) -> Map<Rect, Seq<Delta>> {
    Map::new(|src: Rect| knows(glyphs, src), |src: Rect| glyphs[place_of(glyphs, src)].dsts@)
}

/// Each glyph is found under its source rectangle.
proof fn lemma_glyph_is_mapped(glyphs: Seq<Glyph>, i: int)
    requires
        distinct(glyphs),
        0 <= i < glyphs.len(),
    ensures
        as_map(glyphs).contains_key(glyphs[i].src),
        as_map(glyphs)[glyphs[i].src] == glyphs[i].dsts@,
{
    let j = place_of(glyphs, glyphs[i].src);
    assert(i == j);
}

/// A glyph with a new source rectangle is a new key.
proof fn lemma_new_glyph(glyphs: Seq<Glyph>, glyph: Glyph)
    requires
        distinct(glyphs),
        !knows(glyphs, glyph.src),
    ensures
        distinct(glyphs.push(glyph)),
        as_map(glyphs.push(glyph)) == as_map(glyphs).insert(glyph.src, glyph.dsts@),
{
    let after = glyphs.push(glyph);
    assert forall|i: int, j: int| 0 <= i < j < after.len() implies (#[trigger] after[i]).src != (
    #[trigger] after[j]).src by {
        if j == glyphs.len() {
            assert(after[i] == glyphs[i]);
        } else {
            assert(after[i] == glyphs[i] && after[j] == glyphs[j]);
        }
    }
    assert forall|src: Rect| knows(after, src) == (knows(glyphs, src) || src == glyph.src) by {
        if knows(glyphs, src) {
            let i = place_of(glyphs, src);
            assert(after[i].src == src);
        }
        if src == glyph.src {
            assert(after[glyphs.len() as int].src == src);
        }
        if knows(after, src) {
            let i = place_of(after, src);
            if i < glyphs.len() {
                assert(glyphs[i].src == src);
            }
        }
    }
    assert forall|src: Rect| #[trigger] knows(after, src) implies as_map(after)[src] == as_map(
        glyphs,
    ).insert(glyph.src, glyph.dsts@)[src] by {
        let i = place_of(after, src);
        lemma_glyph_is_mapped(after, i);
        if i < glyphs.len() {
            assert(after[i] == glyphs[i]);
            lemma_glyph_is_mapped(glyphs, i);
        }
    }
    assert(as_map(after) =~= as_map(glyphs).insert(glyph.src, glyph.dsts@));
}

/// A glyph that takes the place of one with the same source rectangle takes over its key.
proof fn lemma_changed_glyph(glyphs: Seq<Glyph>, at: int, glyph: Glyph)
    requires
        distinct(glyphs),
        0 <= at < glyphs.len(),
        glyphs[at].src == glyph.src,
    ensures
        distinct(glyphs.update(at, glyph)),
        as_map(glyphs.update(at, glyph)) == as_map(glyphs).insert(glyph.src, glyph.dsts@),
{
    let after = glyphs.update(at, glyph);
    assert forall|i: int, j: int| 0 <= i < j < after.len() implies (#[trigger] after[i]).src != (
    #[trigger] after[j]).src by {
        assert(after[i].src == glyphs[i].src && after[j].src == glyphs[j].src);
    }
    assert forall|src: Rect| knows(after, src) == (knows(glyphs, src) || src == glyph.src) by {
        if knows(glyphs, src) {
            let i = place_of(glyphs, src);
            assert(after[i].src == src);
        }
        if src == glyph.src {
            assert(after[at].src == src);
        }
        if knows(after, src) {
            let i = place_of(after, src);
            assert(glyphs[i].src == src);
        }
    }
    assert forall|src: Rect| #[trigger] knows(after, src) implies as_map(after)[src] == as_map(
        glyphs,
    ).insert(glyph.src, glyph.dsts@)[src] by {
        let i = place_of(after, src);
        lemma_glyph_is_mapped(after, i);
        if i != at {
            assert(after[i] == glyphs[i]);
            lemma_glyph_is_mapped(glyphs, i);
        }
    }
    assert(as_map(after) =~= as_map(glyphs).insert(glyph.src, glyph.dsts@));
}

/// Finds the glyph with the source rectangle `src` among `glyphs`.
fn position(glyphs: &Vec<Glyph>, src: Rect) -> (at: Option<usize>)
    ensures
        at matches Some(i) ==> i < glyphs@.len() && glyphs@[i as int].src == src,
        at is None ==> !knows(glyphs@, src),
{
    let mut i: usize = 0;
    while i < glyphs.len()
        invariant
            i <= glyphs@.len(),
            forall|j: int| 0 <= j < i ==> (#[trigger] glyphs@[j]).src != src,
        decreases glyphs@.len() - i,
    {
        if glyphs[i].src == src {
            return Some(i);
        }
        i += 1;
    }
    None
}

impl View for GlyphSet {
    type V = Map<Rect, Seq<Delta>>;

    closed spec fn view(&self) -> Map<Rect, Seq<Delta>> {
        as_map(self.glyphs@)
    }
}

/// Whether `deltas` and `others` are the same places in the same order.
fn same_places(deltas: &Vec<Delta>, others: &Vec<Delta>) -> (same: bool)
    ensures
        same == (deltas@ == others@),
{
    if deltas.len() != others.len() {
        return false;
    }
    let mut i: usize = 0;
    while i < deltas.len()
        invariant
            i <= deltas@.len(),
            deltas@.len() == others@.len(),
            forall|k: int| 0 <= k < i ==> deltas@[k] == others@[k],
        decreases deltas@.len() - i,
    {
        if deltas[i] != others[i] {
            return false;
        }
        i += 1;
    }
    proof {
        assert(deltas@ =~= others@);
    }
    true
}

/// Whether `others` has every source rectangle of `glyphs`, with the same places.
fn includes(glyphs: &Vec<Glyph>, others: &Vec<Glyph>) -> (all: bool)
    requires
        distinct(glyphs@),
        distinct(others@),
    ensures
        all == (forall|src: Rect| #[trigger]
            as_map(glyphs@).contains_key(src) ==> as_map(others@).contains_key(src) && as_map(
                others@,
            )[src] == as_map(glyphs@)[src]),
{
    let mut i: usize = 0;
    while i < glyphs.len()
        invariant
            i <= glyphs@.len(),
            distinct(glyphs@),
            distinct(others@),
            forall|k: int|
                0 <= k < i ==> as_map(others@).contains_key((#[trigger] glyphs@[k]).src) && as_map(
                    others@,
                )[glyphs@[k].src] == glyphs@[k].dsts@,
        decreases glyphs@.len() - i,
    {
        proof {
            lemma_glyph_is_mapped(glyphs@, i as int);
        }
        match position(others, glyphs[i].src) {
            Some(j) => {
                proof {
                    lemma_glyph_is_mapped(others@, j as int);
                }
                if !same_places(&glyphs[i].dsts, &others[j].dsts) {
                    return false;
                }
            },
            None => {
                return false;
            },
        }
        i += 1;
    }
    proof {
        assert forall|src: Rect| #[trigger]
            as_map(glyphs@).contains_key(src) implies as_map(others@).contains_key(src) && as_map(
            others@,
        )[src] == as_map(glyphs@)[src] by {
            let k = place_of(glyphs@, src);
            lemma_glyph_is_mapped(glyphs@, k);
        }
    }
    true
}

/// Two glyph sets are equal where they have the same places for the same source rectangles,
/// whatever the order in which the rectangles came.
impl PartialEq for GlyphSet {
    fn eq(&self, other: &Self) -> (same: bool) {
        proof {
            use_type_invariant(self);
            use_type_invariant(other);
        }
        let same = includes(&self.glyphs, &other.glyphs) && includes(&other.glyphs, &self.glyphs);
        proof {
            if same {
                assert(self@ =~= other@);
            }
        }
        same
    }
}

impl PartialEqSpecImpl for GlyphSet {
    open spec fn obeys_eq_spec() -> bool {
        true
    }

    open spec fn eq_spec(&self, other: &Self) -> bool {
        self@ == other@
    }
}

impl Eq for GlyphSet {

}

/// A copy of a glyph has the same source rectangle and the same places.
impl Clone for Glyph {
    fn clone(&self) -> (copy: Self)
        ensures
            copy.src == self.src,
            copy.dsts@ == self.dsts@,
    {
        let mut dsts: Vec<Delta> = Vec::new();
        let mut i: usize = 0;
        while i < self.dsts.len()
            invariant
                i <= self.dsts@.len(),
                dsts@ == self.dsts@.take(i as int),
            decreases self.dsts@.len() - i,
        {
            dsts.push(self.dsts[i]);
            proof {
                assert(self.dsts@.take(i + 1) =~= self.dsts@.take(i as int).push(
                    self.dsts@[i as int],
                ));
            }
            i += 1;
        }
        proof {
            assert(self.dsts@.take(self.dsts@.len() as int) =~= self.dsts@);
        }
        Glyph { src: self.src, dsts }
    }
}

/// A copy of a glyph set has the same places for the same source rectangles.
impl Clone for GlyphSet {
    fn clone(&self) -> (copy: Self)
        ensures
            copy@ == self@,
    {
        proof {
            use_type_invariant(self);
        }
        let mut glyphs: Vec<Glyph> = Vec::new();
        let mut i: usize = 0;
        while i < self.glyphs.len()
            invariant
                i <= self.glyphs@.len(),
                glyphs@.len() == i,
                forall|k: int|
                    0 <= k < i ==> (#[trigger] glyphs@[k]).src == self.glyphs@[k].src
                        && glyphs@[k].dsts@ == self.glyphs@[k].dsts@,
            decreases self.glyphs@.len() - i,
        {
            glyphs.push(self.glyphs[i].clone());
            i += 1;
        }
        proof {
            lemma_same_glyphs(self.glyphs@, glyphs@);
        }
        GlyphSet { glyphs }
    }
}

/// The default glyph set is empty.
impl Default for GlyphSet {
    fn default() -> (glyphs: Self)
        ensures
            glyphs@ == Map::<Rect, Seq<Delta>>::empty(),
    {
        let glyphs = GlyphSet { glyphs: Vec::new() };
        assert(glyphs@ =~= Map::<Rect, Seq<Delta>>::empty());
        glyphs
    }
}

impl GlyphSet {
    #[verifier::type_invariant]
    spec fn sources_are_distinct(self) -> bool {
        distinct(self.glyphs@)
    }

    /// The glyphs of the set, one for each source rectangle.
    #[must_use]
    pub fn iter(&self) -> (glyphs: &Vec<Glyph>)
        ensures
            forall|i: int|
                0 <= i < glyphs@.len() ==> self@.contains_key((#[trigger] glyphs@[i]).src)
                    && self@[glyphs@[i].src] == glyphs@[i].dsts@,
            forall|src: Rect|
                self@.contains_key(src) ==> exists|i: int|
                    0 <= i < glyphs@.len() && (#[trigger] glyphs@[i]).src == src,
            forall|i: int, j: int|
                0 <= i < j < glyphs@.len() ==> (#[trigger] glyphs@[i]).src != (
                #[trigger] glyphs@[j]).src,
    {
        proof {
            use_type_invariant(self);
            assert forall|i: int| 0 <= i < self.glyphs@.len() implies self@.contains_key(
                (#[trigger] self.glyphs@[i]).src,
            ) && self@[self.glyphs@[i].src] == self.glyphs@[i].dsts@ by {
                lemma_glyph_is_mapped(self.glyphs@, i);
            }
        }
        &self.glyphs
    }

    /// Records `delta` as the next place of the glyph at `src`.
    pub(crate) fn push(&mut self, src: Rect, delta: Delta)
        ensures
            final(self)@ == with_places(old(self)@, src, seq![delta]),
    {
        proof {
            use_type_invariant(&*self);
        }
        // The glyphs leave the set while they change.
        let mut glyphs: Vec<Glyph> = Vec::new();
        core::mem::swap(&mut self.glyphs, &mut glyphs);
        let ghost before = glyphs@;
        match position(&glyphs, src) {
            Some(i) => {
                glyphs[i].dsts.push(delta);
                proof {
                    lemma_glyph_is_mapped(before, i as int);
                    lemma_changed_glyph(before, i as int, glyphs@[i as int]);
                    assert(glyphs@ =~= before.update(i as int, glyphs@[i as int]));
                    assert(glyphs@[i as int].dsts@ =~= before[i as int].dsts@ + seq![delta]);
                }
            },
            None => {
                let mut dsts: Vec<Delta> = Vec::new();
                dsts.push(delta);
                let glyph = Glyph { src, dsts };
                proof {
                    lemma_new_glyph(before, glyph);
                    assert(glyph.dsts@ =~= Seq::<Delta>::empty() + seq![delta]);
                }
                glyphs.push(glyph);
            },
        }
        core::mem::swap(&mut self.glyphs, &mut glyphs);
    }

    /// Records `deltas` as the next places of the glyph at `src`.
    pub(crate) fn extend(&mut self, src: Rect, deltas: Vec<Delta>)
        ensures
            final(self)@ == with_places(old(self)@, src, deltas@),
    {
        proof {
            use_type_invariant(&*self);
        }
        let mut deltas = deltas;
        // The glyphs leave the set while they change.
        let mut glyphs: Vec<Glyph> = Vec::new();
        core::mem::swap(&mut self.glyphs, &mut glyphs);
        let ghost before = glyphs@;
        match position(&glyphs, src) {
            Some(i) => {
                glyphs[i].dsts.append(&mut deltas);
                proof {
                    lemma_glyph_is_mapped(before, i as int);
                    lemma_changed_glyph(before, i as int, glyphs@[i as int]);
                    assert(glyphs@ =~= before.update(i as int, glyphs@[i as int]));
                }
            },
            None => {
                let glyph = Glyph { src, dsts: deltas };
                proof {
                    lemma_new_glyph(before, glyph);
                    assert(glyph.dsts@ =~= Seq::<Delta>::empty() + glyph.dsts@);
                }
                glyphs.push(glyph);
            },
        }
        core::mem::swap(&mut self.glyphs, &mut glyphs);
    }

    /// Records every glyph of `other`, after the glyphs that are there.
    pub(crate) fn merge(&mut self, other: GlyphSet)
        ensures
            final(self)@ == merged(old(self)@, other@),
    {
        proof {
            use_type_invariant(&other);
        }
        let others = other.glyphs;
        let ghost all = others@;
        proof {
            assert(all.take(0) =~= Seq::<Glyph>::empty());
            assert(self@ =~= merged(self@, as_map(all.take(0))));
        }
        for glyph in it: others
            invariant
                it.seq() == all,
                distinct(all),
                self@ == merged(old(self)@, as_map(all.take(it.index() as int))),
        {
            proof {
                let k = it.index() as int;
                lemma_glyph_follows(all, k);
                lemma_merged_glyph(old(self)@, as_map(all.take(k)), glyph.src, glyph.dsts@);
            }
            self.extend(glyph.src, glyph.dsts);
        }
        proof {
            assert(all.take(all.len() as int) =~= all);
        }
    }

    /// Moves the glyphs of a line to where the alignment of the whole string wants them.
    ///
    /// The line is `line_width` wide, and the string `total_width`.  Each place moves to the
    /// right by as much as lies left of the anchor `alignment` in the gap between the two.
    pub(crate) fn realign(&mut self, alignment: anchor::X, line_width: Length, total_width: Length)
        requires
            fits(total_width - line_width),
            can_realign(old(self)@, alignment.spec_offset(total_width - line_width)),
        ensures
            final(self)@ == realigned(
                old(self)@,
                alignment.spec_offset(total_width - line_width),
            ),
    {
        proof {
            use_type_invariant(&*self);
        }
        let dw = alignment.offset(total_width - line_width);

        if dw == 0 {
            // No need to realign in this case.
            assert(self@ =~~= realigned(self@, 0));
            return ;
        }
        // The glyphs leave the set while they change.

        let mut glyphs: Vec<Glyph> = Vec::new();
        core::mem::swap(&mut self.glyphs, &mut glyphs);
        let ghost before = glyphs@;
        let mut i: usize = 0;
        while i < glyphs.len()
            invariant
                i <= glyphs@.len(),
                glyphs@.len() == before.len(),
                distinct(before),
                can_realign(as_map(before), dw as int),
                forall|k: int| 0 <= k < i ==> nudges(before[k], #[trigger] glyphs@[k], dw as int),
                forall|k: int| i <= k < glyphs@.len() ==> #[trigger] glyphs@[k] == before[k],
            decreases glyphs@.len() - i,
        {
            let mut j: usize = 0;
            let ghost entered = glyphs@;
            proof {
                lemma_glyph_is_mapped(before, i as int);
            }
            while j < glyphs[i].dsts.len()
                invariant
                    i < glyphs@.len(),
                    glyphs@.len() == before.len(),
                    forall|k: int|
                        0 <= k < glyphs@.len() && k != i ==> #[trigger] glyphs@[k] == entered[k],
                    glyphs@[i as int].src == before[i as int].src,
                    glyphs@[i as int].dsts@.len() == before[i as int].dsts@.len(),
                    j <= glyphs@[i as int].dsts@.len(),
                    forall|l: int|
                        0 <= l < j ==> #[trigger] glyphs@[i as int].dsts@[l] == nudged(
                            before[i as int].dsts@[l],
                            dw as int,
                        ),
                    forall|l: int|
                        j <= l < glyphs@[i as int].dsts@.len() ==> #[trigger] glyphs@[i as int].dsts@[l]
                            == before[i as int].dsts@[l],
                    forall|l: int|
                        0 <= l < before[i as int].dsts@.len() ==> fits(
                            (#[trigger] before[i as int].dsts@[l]).dx + dw,
                        ),
                decreases glyphs@[i as int].dsts@.len() - j,
            {
                let moved = Delta { dx: glyphs[i].dsts[j].dx + dw, dy: glyphs[i].dsts[j].dy };
                glyphs[i].dsts[j] = moved;
                j += 1;
            }
            i += 1;
        }
        proof {
            lemma_nudged_glyphs(before, glyphs@, dw as int);
        }
        core::mem::swap(&mut self.glyphs, &mut glyphs);
    }
}

/// Glyphs with the same source rectangles and the same places stand for the same map.
proof fn lemma_same_glyphs(before: Seq<Glyph>, after: Seq<Glyph>)
    requires
        distinct(before),
        after.len() == before.len(),
        forall|k: int|
            0 <= k < before.len() ==> (#[trigger] after[k]).src == before[k].src
                && after[k].dsts@ == before[k].dsts@,
    ensures
        distinct(after),
        as_map(after) == as_map(before),
{
    assert forall|i: int, j: int| 0 <= i < j < after.len() implies (#[trigger] after[i]).src != (
    #[trigger] after[j]).src by {
        assert(after[i].src == before[i].src && after[j].src == before[j].src);
    }
    assert forall|src: Rect| knows(after, src) == knows(before, src) by {
        if knows(after, src) {
            let i = place_of(after, src);
            assert(before[i].src == src);
        }
        if knows(before, src) {
            let i = place_of(before, src);
            assert(after[i].src == src);
        }
    }
    assert forall|src: Rect| #[trigger] knows(after, src) implies as_map(after)[src] == as_map(
        before,
    )[src] by {
        let i = place_of(after, src);
        lemma_glyph_is_mapped(after, i);
        assert(before[i].src == src);
        lemma_glyph_is_mapped(before, i);
    }
    assert(as_map(after) =~= as_map(before));
}

/// Whether `after` is `before` with each place `by` further to the right.
spec fn nudges(before: Glyph, after: Glyph, by: int) -> bool {
    &&& after.src == before.src
    &&& after.dsts@.len() == before.dsts@.len()
    &&& forall|l: int|
        0 <= l < after.dsts@.len() ==> #[trigger] after.dsts@[l] == nudged(before.dsts@[l], by)
}

/// The glyph after the first `k` is a new key for them.
proof fn lemma_glyph_follows(glyphs: Seq<Glyph>, k: int)
    requires
        distinct(glyphs),
        0 <= k < glyphs.len(),
    ensures
        !as_map(glyphs.take(k)).contains_key(glyphs[k].src),
        as_map(glyphs.take(k + 1)) == as_map(glyphs.take(k)).insert(
            glyphs[k].src,
            glyphs[k].dsts@,
        ),
{
    let head = glyphs.take(k);
    assert forall|i: int, j: int| 0 <= i < j < head.len() implies (#[trigger] head[i]).src != (
    #[trigger] head[j]).src by {
        assert(head[i] == glyphs[i] && head[j] == glyphs[j]);
    }
    if knows(head, glyphs[k].src) {
        let i = place_of(head, glyphs[k].src);
        assert(head[i] == glyphs[i]);
    }
    lemma_new_glyph(head, glyphs[k]);
    assert(glyphs.take(k + 1) =~= head.push(glyphs[k]));
}

/// Merging one more glyph is recording its places after those that are there.
proof fn lemma_merged_glyph(
    first: Map<Rect, Seq<Delta>>,
    second: Map<Rect, Seq<Delta>>,
    src: Rect,
    deltas: Seq<Delta>,
)
    requires
        !second.contains_key(src),
    ensures
        merged(first, second.insert(src, deltas)) == with_places(
            merged(first, second),
            src,
            deltas,
        ),
{
    assert(places(merged(first, second), src) =~= places(first, src));
    assert(merged(first, second.insert(src, deltas)) =~= with_places(
        merged(first, second),
        src,
        deltas,
    ));
}

/// Glyphs that are nudged one by one stand for the realigned map.
proof fn lemma_nudged_glyphs(before: Seq<Glyph>, after: Seq<Glyph>, by: int)
    requires
        distinct(before),
        after.len() == before.len(),
        forall|k: int| 0 <= k < before.len() ==> nudges(before[k], #[trigger] after[k], by),
    ensures
        distinct(after),
        as_map(after) == realigned(as_map(before), by),
{
    assert forall|i: int, j: int| 0 <= i < j < after.len() implies (#[trigger] after[i]).src != (
    #[trigger] after[j]).src by {
        assert(after[i].src == before[i].src && after[j].src == before[j].src);
    }
    assert forall|src: Rect| knows(after, src) == knows(before, src) by {
        if knows(after, src) {
            let i = place_of(after, src);
            assert(before[i].src == src);
        }
        if knows(before, src) {
            let i = place_of(before, src);
            assert(after[i].src == src);
        }
    }
    assert forall|src: Rect| #[trigger] knows(after, src) implies as_map(after)[src] == realigned(
        as_map(before),
        by,
    )[src] by {
        let i = place_of(after, src);
        lemma_glyph_is_mapped(after, i);
        assert(before[i].src == src);
        lemma_glyph_is_mapped(before, i);
        assert(after[i].dsts@ =~= realigned(as_map(before), by)[src]);
    }
    assert(as_map(after) =~= realigned(as_map(before), by));
}

} // verus!
