//! Font management.
//!
//! This part of the font subsystem deals with storing font texture data, predominantly.

use vstd::prelude::*;
use vstd::std_specs::cmp::PartialEqSpec;

use super::error::Error;
use super::spec::Spec;
use super::FontMap;
use crate::colour::definition::Definition;
use crate::resource::ResourceMap;

verus! {

/// An index for a loaded font in a [`Manager`].
///
/// The index may be arbitrary, as long as it can be traded in for a valid font.
#[derive(Debug, Eq, PartialEq, Structural, Copy, Clone)]
pub struct Index(usize);

impl Index {
    /// The place in a manager's cache that this index stands for.
    pub closed spec fn place(&self) -> usize {
        self.0
    }
}

/// The default value for a font index is something that is unlikely to be assigned as an actual
/// index, so that a map of font indices can start out with defaults in every place.
impl Default for Index {
    fn default() -> (index: Self)
        ensures
            index.place() == usize::MAX,
    {
        Index(usize::MAX)
    }
}

/// What a rendering backend does to get the data of a font.
pub trait Loader {
    /// The data that the backend keeps for a loaded font, such as a texture.
    type Data;

    /// Loads the texture file at `path`.
    ///
    /// # Errors
    ///
    /// Fails if the file cannot be read or decoded.
    fn load(&mut self, path: &str) -> Result<Self::Data, Error>;

    /// Tints `data` for the foreground colour `fg`.
    fn colourise(&mut self, data: &mut Self::Data, fg: Definition);
}

/// A backend-agnostic, cached font manager.
///
/// The manager loads the data of each combination of font and colour when it is first asked
/// for, and never again: the cache only grows.
pub struct Manager<Font: FontMap, Fg: ResourceMap<Definition>, L: Loader> {
    /// The place in the cache of each font and colour that was loaded.
    slot_mapping: Vec<(Spec<Font::Id, Fg::Id>, Index)>,
    /// The cache of already-loaded fonts.
    cache: Vec<L::Data>,
    /// The loader of the backend.
    loader: L,
    /// The font path set.
    font_set: Font,
    /// The font metrics set.
    metrics_set: Font::MetricsMap,
    /// The foreground colour set.
    colour_set: Fg,
}

/// Whether `==` on identifiers of type `Id` says whether two identifiers are the same.
pub open spec fn comparable<Id: PartialEq>() -> bool {
    &&& Id::obeys_eq_spec()
    &&& forall|x: Id, y: Id| #[trigger] x.eq_spec(&y) <==> x == y
}

/// The place in `slots` of the first slot for `spec`, or the length of `slots`.
pub open spec fn slot_of<F, C>(slots: Seq<(Spec<F, C>, Index)>, spec: Spec<F, C>) -> int
    decreases slots.len(),
{
    if slots.len() == 0 {
        0
    } else if slots.first().0 == spec {
        0
    } else {
        1 + slot_of(slots.drop_first(), spec)
    }
}

impl<Font: FontMap, Fg: ResourceMap<Definition>, L: Loader> Manager<Font, Fg, L> {
    /// The font and colour combinations that were loaded, each with its place in the cache,
    /// in the order in which they were loaded.
    pub closed spec fn slots(&self) -> Seq<(Spec<Font::Id, Fg::Id>, Index)> {
        self.slot_mapping@
    }

    /// The data that were loaded, in the order in which they were loaded.
    pub closed spec fn cache(&self) -> Seq<L::Data> {
        self.cache@
    }

    /// The loader of the backend.
    pub closed spec fn loader(&self) -> L {
        self.loader
    }

    /// The font path set.
    pub closed spec fn fonts(&self) -> Font {
        self.font_set
    }

    /// The font metrics set.
    pub closed spec fn spec_metrics(&self) -> Font::MetricsMap {
        self.metrics_set
    }

    /// The foreground colour set.
    pub closed spec fn colours(&self) -> Fg {
        self.colour_set
    }

    /// The index of the data for `spec`, if they were loaded.
    pub open spec fn index_of(&self, spec: Spec<Font::Id, Fg::Id>) -> Option<Index> {
        let slot = slot_of(self.slots(), spec);
        if slot < self.slots().len() {
            Some(self.slots()[slot].1)
        } else {
            None
        }
    }

    /// Whether this manager is in order: identifiers can be compared, the data of the
    /// `n`th combination that was loaded are the `n`th in the cache, and no combination was
    /// loaded twice.
    pub open spec fn wf(&self) -> bool {
        &&& comparable::<Font::Id>()
        &&& comparable::<Fg::Id>()
        &&& self.slots().len() == self.cache().len()
        &&& forall|i: int| 0 <= i < self.slots().len() ==> (#[trigger] self.slots()[i]).1.place() == i
        &&& forall|i: int, j: int|
            0 <= i < j < self.slots().len() ==> (#[trigger] self.slots()[i]).0 != (
            #[trigger] self.slots()[j]).0
    }

    /// Whether `after` has the slots, the cache and the maps of this manager.
    pub open spec fn kept(&self, after: &Self) -> bool {
        &&& after.slots() == self.slots()
        &&& after.cache() == self.cache()
        &&& after.fonts() == self.fonts()
        &&& after.spec_metrics() == self.spec_metrics()
        &&& after.colours() == self.colours()
    }

    /// Whether `after` is this manager with `data` added to the cache as the data for `spec`.
    pub open spec fn loaded(&self, spec: Spec<Font::Id, Fg::Id>, data: L::Data, after: &Self) -> bool {
        &&& after.index_of(spec) matches Some(index) && index.place() == self.cache().len()
        &&& after.slots() == self.slots().push((spec, after.index_of(spec)->0))
        &&& after.cache() == self.cache().push(data)
        &&& after.fonts() == self.fonts()
        &&& after.spec_metrics() == self.spec_metrics()
        &&& after.colours() == self.colours()
    }

    /// Whether `path` may be the path that the loader is handed for `spec`: the path of the
    /// texture of the font, where the font map can be relied on.
    pub open spec fn hands_path(&self, spec: Spec<Font::Id, Fg::Id>, path: Seq<char>) -> bool {
        self.fonts().is_reliable() ==> path == super::joined_path(
            self.fonts().resource(spec.id).dir(),
            super::TEXTURE_FILE@,
        )
    }

    /// Whether `fg` may be the colour that the loader is handed for `spec`: the colour of the
    /// colour map, where the colour map can be relied on.
    pub open spec fn hands_colour(&self, spec: Spec<Font::Id, Fg::Id>, fg: Definition) -> bool {
        self.colours().is_reliable() ==> fg == self.colours().resource(spec.colour)
    }

    /// Whether a call of [`Manager::data`] for `spec` on this manager may give `result` and
    /// leave the manager as `after`.
    ///
    /// Where the data for `spec` are in the cache, the call gives them, and leaves the manager
    /// and its loader as they are.  Where they are not, the call gives what the loader made
    /// and adds it to the cache, or gives the error of the loader and keeps the cache.
    pub open spec fn serves(
        &self,
        spec: Spec<Font::Id, Fg::Id>,
        result: Result<&L::Data, Error>,
        after: &Self,
    ) -> bool {
        match self.index_of(spec) {
            Some(index) => {
                &&& result matches Ok(data) && *data == self.cache()[index.place() as int]
                &&& self.kept(after)
                &&& after.loader() == self.loader()
            },
            None => match result {
                Ok(data) => self.loaded(spec, *data, after),
                Err(_) => self.kept(after),
            },
        }
    }

    /// Creates a font manager with the given loader and config maps.
    #[must_use]
    pub fn new(loader: L, font_set: Font, metrics_set: Font::MetricsMap, colour_set: Fg) -> (manager:
        Self)
        requires
            comparable::<Font::Id>(),
            comparable::<Fg::Id>(),
        ensures
            manager.wf(),
            manager.slots().len() == 0,
            manager.cache().len() == 0,
            manager.loader() == loader,
            manager.fonts() == font_set,
            manager.spec_metrics() == metrics_set,
            manager.colours() == colour_set,
    {
        Self {
            slot_mapping: Vec::new(),
            cache: Vec::new(),
            loader,
            font_set,
            metrics_set,
            colour_set,
        }
    }

    /// Gets a reference to this font manager's metrics set.
    pub fn metrics(&self) -> (metrics: &Font::MetricsMap)
        ensures
            *metrics == self.spec_metrics(),
    {
        &self.metrics_set
    }

    /// Looks up the index of the data for `spec`, without loading anything.
    pub fn index(&self, spec: Spec<Font::Id, Fg::Id>) -> (index: Option<Index>)
        requires
            self.wf(),
        ensures
            index == self.index_of(spec),
    {
        let mut i: usize = 0;
        proof {
            assert(self.slot_mapping@.skip(0) =~= self.slot_mapping@);
        }
        while i < self.slot_mapping.len()
            invariant
                i <= self.slot_mapping@.len(),
                comparable::<Font::Id>(),
                comparable::<Fg::Id>(),
                slot_of(self.slot_mapping@, spec) == i + slot_of(
                    self.slot_mapping@.skip(i as int),
                    spec,
                ),
            decreases self.slot_mapping@.len() - i,
        {
            let ghost rest = self.slot_mapping@.skip(i as int);
            proof {
                assert(rest.first() == self.slot_mapping@[i as int]);
                assert(rest.drop_first() =~= self.slot_mapping@.skip(i + 1));
            }
            let known = &self.slot_mapping[i].0;
            if known.id == spec.id && known.colour == spec.colour {
                return Some(self.slot_mapping[i].1);
            }
            i += 1;
        }
        None
    }

    /// Trades `index` in for the data that it stands for.
    ///
    /// # Errors
    ///
    /// Fails with `BadHandle` if this manager never gave out `index`.
    pub fn get(&self, index: Index) -> (result: Result<&L::Data, Error>)
        ensures
            match result {
                Ok(data) => index.place() < self.cache().len() && *data == self.cache()[index.place() as int],
                Err(Error::BadHandle(bad)) => index.place() >= self.cache().len() && bad == index,
                Err(_) => false,
            },
    {
        if index.0 < self.cache.len() {
            Ok(&self.cache[index.0])
        } else {
            Err(Error::BadHandle(index))
        }
    }

    /// The path of the texture of the font for `spec`: what the loader is handed to load it.
    pub fn texture_path(&self, spec: Spec<Font::Id, Fg::Id>) -> (path: String)
        ensures
            self.fonts().is_reliable() ==> path@ == super::joined_path(
                self.fonts().resource(spec.id).dir(),
                super::TEXTURE_FILE@,
            ),
    {
        self.font_set.get(spec.id).texture_path()
    }

    /// The colour for `spec`: what the loader is handed to tint the font.
    pub fn colour(&self, spec: Spec<Font::Id, Fg::Id>) -> (colour: Definition)
        ensures
            self.colours().is_reliable() ==> colour == self.colours().resource(spec.colour),
    {
        *self.colour_set.get(spec.colour)
    }

    /// Records `data` as the data for `spec`, which was not loaded before.
    pub fn insert(&mut self, spec: Spec<Font::Id, Fg::Id>, data: L::Data) -> (index: Index)
        requires
            old(self).wf(),
            old(self).index_of(spec) is None,
        ensures
            final(self).wf(),
            index.place() == old(self).cache().len(),
            final(self).cache() == old(self).cache().push(data),
            final(self).slots() == old(self).slots().push((spec, index)),
            final(self).index_of(spec) == Some(index),
            final(self).loader() == old(self).loader(),
            final(self).fonts() == old(self).fonts(),
            final(self).spec_metrics() == old(self).spec_metrics(),
            final(self).colours() == old(self).colours(),
    {
        let index = Index(self.cache.len());
        proof {
            lemma_slot_is_first(self.slot_mapping@, spec);
            lemma_slot_after_push(self.slot_mapping@, (spec, index), spec);
        }
        self.cache.push(data);
        self.slot_mapping.push((spec, index));
        index
    }

    /// Gets the data for the given font and colour.
    ///
    /// If the data were not loaded before, the loader loads the texture of the font and tints
    /// it for the colour, and the manager keeps the result.  Otherwise nothing is loaded, and
    /// nothing changes.
    ///
    /// What the loader is asked to load is the texture of the font, and what it is asked to
    /// tint is what it has loaded, for the colour of `spec`.
    ///
    /// # Errors
    ///
    /// Fails if the loader fails to load the texture, with the error of the loader; the
    /// manager then keeps what it had.
    pub fn data(&mut self, spec: Spec<Font::Id, Fg::Id>) -> (result: Result<&L::Data, Error>)
        requires
            old(self).wf(),
        ensures
            final(self).wf(),
            old(self).serves(spec, result, final(self)),
            old(self).index_of(spec) is None ==> match result {
                Ok(data) => exists|
                    loader: &mut L,
                    path: &str,
                    raw: L::Data,
                    tinter: &mut L,
                    handed: &mut L::Data,
                    fg: Definition,
                |
                    {
                        &&& *loader == old(self).loader()
                        &&& old(self).hands_path(spec, path@)
                        &&& #[trigger] call_ensures(
                            L::load,
                            (loader, path),
                            Ok::<L::Data, Error>(raw),
                        )
                        &&& *tinter == *final(loader)
                        &&& *handed == raw
                        &&& old(self).hands_colour(spec, fg)
                        &&& #[trigger] call_ensures(L::colourise, (tinter, handed, fg), ())
                        &&& *final(handed) == *data
                        &&& *final(tinter) == final(self).loader()
                    },
                Err(error) => exists|loader: &mut L, path: &str|
                    {
                        &&& *loader == old(self).loader()
                        &&& old(self).hands_path(spec, path@)
                        &&& #[trigger] call_ensures(
                            L::load,
                            (loader, path),
                            Err::<L::Data, Error>(error),
                        )
                        &&& *final(loader) == final(self).loader()
                    },
            },
    {
        let index = match self.index(spec) {
            Some(index) => {
                proof {
                    lemma_slot_is_first(self.slot_mapping@, spec);
                }
                index
            },
            None => {
                let path = self.texture_path(spec);
                let mut data = match self.loader.load(path.as_str()) {
                    Ok(data) => data,
                    Err(error) => {
                        return Err(error);
                    },
                };
                let fg = self.colour(spec);
                self.loader.colourise(&mut data, fg);
                self.insert(spec, data)
            },
        };
        match self.get(index) {
            Ok(data) => Ok(data),
            Err(error) => Err(error),
        }
    }
}

/// Cache idempotence: once the data for `spec` were loaded, each further call for `spec`
/// gives the same data, and leaves the manager and its loader as they are.
///
/// The calls are `results.len()` calls of [`Manager::data`] for `spec` in a row, of which
/// the first succeeds; call `i` finds the manager as `states[i]` and leaves it as
/// `states[i + 1]`.  Whatever the first call did, no later call touches the loader.
pub proof fn lemma_loaded_once<Font: FontMap, Fg: ResourceMap<Definition>, L: Loader>(
    states: Seq<Manager<Font, Fg, L>>,
    results: Seq<Result<&L::Data, Error>>,
    spec: Spec<Font::Id, Fg::Id>,
)
    requires
        results.len() >= 1,
        states.len() == results.len() + 1,
        states[0].wf(),
        forall|i: int|
            0 <= i < results.len() ==> (#[trigger] states[i]).serves(
                spec,
                results[i],
                &states[i + 1],
            ),
        results[0] is Ok,
    ensures
        forall|i: int|
            1 <= i < results.len() ==> {
                &&& (#[trigger] results[i]) matches Ok(data) && *data == *results[0]->Ok_0
                &&& states[i].kept(&states[i + 1])
                &&& states[i + 1].loader() == states[i].loader()
            },
    decreases results.len(),
{
    if results.len() >= 2 {
        let n = results.len() as int;
        lemma_loaded_once(states.drop_last(), results.drop_last(), spec);
        lemma_hit_after_first(states.drop_last(), results.drop_last(), spec);
        assert(states[n - 1] == states.drop_last()[n - 1]);
        assert(states[n - 1].serves(spec, results[n - 1], &states[n]));
        assert forall|i: int| 1 <= i < results.len() implies {
            &&& (#[trigger] results[i]) matches Ok(data) && *data == *results[0]->Ok_0
            &&& states[i].kept(&states[i + 1])
            &&& states[i + 1].loader() == states[i].loader()
        } by {
            if i < n - 1 {
                assert(results[i] == results.drop_last()[i]);
                assert(states[i] == states.drop_last()[i]);
                assert(states[i + 1] == states.drop_last()[i + 1]);
            }
        }
    }
}

/// After calls for `spec` of which the first succeeded, the data for `spec` are in the cache,
/// and they are what the first call gave.
proof fn lemma_hit_after_first<Font: FontMap, Fg: ResourceMap<Definition>, L: Loader>(
    states: Seq<Manager<Font, Fg, L>>,
    results: Seq<Result<&L::Data, Error>>,
    spec: Spec<Font::Id, Fg::Id>,
)
    requires
        results.len() >= 1,
        states.len() == results.len() + 1,
        states[0].wf(),
        forall|i: int|
            0 <= i < results.len() ==> (#[trigger] states[i]).serves(
                spec,
                results[i],
                &states[i + 1],
            ),
        results[0] is Ok,
    ensures
        states.last().index_of(spec) matches Some(index) && index.place()
            < states.last().cache().len() && states.last().cache()[index.place() as int]
            == *results[0]->Ok_0,
    decreases results.len(),
{
    let n = results.len() as int;
    if n == 1 {
        assert(states[0].serves(spec, results[0], &states[1]));
        lemma_slot_is_first(states[0].slots(), spec);
    } else {
        lemma_hit_after_first(states.drop_last(), results.drop_last(), spec);
        assert(states[n - 1] == states.drop_last()[n - 1]);
        assert(states[n - 1].serves(spec, results[n - 1], &states[n]));
    }
}

/// The slot that is found for `spec` is the first one for `spec`, if there is one.
pub proof fn lemma_slot_is_first<F, C>(slots: Seq<(Spec<F, C>, Index)>, spec: Spec<F, C>)
    ensures
        0 <= slot_of(slots, spec) <= slots.len(),
        slot_of(slots, spec) < slots.len() ==> slots[slot_of(slots, spec)].0 == spec,
        forall|i: int| 0 <= i < slot_of(slots, spec) ==> (#[trigger] slots[i]).0 != spec,
    decreases slots.len(),
{
    if slots.len() > 0 && slots.first().0 != spec {
        let rest = slots.drop_first();
        lemma_slot_is_first(rest, spec);
        assert forall|i: int| 0 <= i < slot_of(slots, spec) implies (#[trigger] slots[i]).0
            != spec by {
            if i > 0 {
                assert(slots[i] == rest[i - 1]);
            }
        }
    }
}

/// A new slot at the end changes the slot of no combination that had one, and is the slot of
/// its own combination if that had none.
pub proof fn lemma_slot_after_push<F, C>(
    slots: Seq<(Spec<F, C>, Index)>,
    slot: (Spec<F, C>, Index),
    spec: Spec<F, C>,
)
    ensures
        slot_of(slots, spec) < slots.len() ==> slot_of(slots.push(slot), spec) == slot_of(
            slots,
            spec,
        ),
        slot_of(slots, spec) == slots.len() && slot.0 == spec ==> slot_of(
            slots.push(slot),
            spec,
        ) == slots.len(),
        slot_of(slots, spec) == slots.len() && slot.0 != spec ==> slot_of(
            slots.push(slot),
            spec,
        ) == slots.len() + 1,
    decreases slots.len(),
{
    lemma_slot_is_first(slots, spec);
    if slots.len() == 0 {
        assert(slots.push(slot).drop_first() =~= slots);
    } else if slots.first().0 != spec {
        assert(slots.push(slot).drop_first() =~= slots.drop_first().push(slot));
        lemma_slot_after_push(slots.drop_first(), slot, spec);
    }
}

} // verus!
