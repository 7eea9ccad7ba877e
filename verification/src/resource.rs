//! Resource maps: lookups from identifiers to fonts, metrics, colours and the like.

use std::collections::hash_map;
use std::collections::HashMap;
use std::hash::Hash;
use vstd::prelude::*;
use vstd::std_specs::hash::obeys_key_model;
use vstd::std_specs::iter::IteratorSpec;

verus! {

/// Trait of resource maps.
///
/// This is an inverted form of indexing: what comes out of the map matters more than what
/// goes into it, and the key is expected to be an enum or something else that is copied for
/// nothing.
pub trait ResourceMap<Resource> {
    /// Type of key used by this map.
    ///
    /// Identifiers are copied freely, and generally will be lightweight enums.  There is a
    /// default identifier, which denotes the resource to use when none was asked for: a
    /// transparent background colour, a black foreground colour, a medium-sized font.
    type Id: Copy + Clone + Default + Eq + Hash;

    /// Whether lookups in this map can be foretold: whether [`ResourceMap::get`] returns what
    /// [`ResourceMap::resource`] says.
    ///
    /// A map that finds its resources by comparing or hashing keys can be relied on where the
    /// key type compares and hashes as its values say.  A map that does not say otherwise
    /// cannot be relied on.
    open spec fn is_reliable(&self) -> bool {
        false
    }

    /// The resource at ID `k`.
    open spec fn resource(&self, k: Self::Id) -> Resource {
        arbitrary()
    }

    /// Gets the resource at ID `k`.
    fn get(&self, k: Self::Id) -> (resource: &Resource)
        ensures
            self.is_reliable() ==> *resource == self.resource(k),
    ;
}

/// A resource map that can be modified.
pub trait MutableMap<Resource>: ResourceMap<Resource> {
    /// Sets the resource at ID `k` to `v`.
    fn set(&mut self, k: Self::Id, v: Resource)
        ensures
            old(self).is_reliable() ==> final(self).is_reliable(),
            old(self).is_reliable() ==> forall|j: Self::Id|
                #[trigger] final(self).resource(j) == (if j == k {
                    v
                } else {
                    old(self).resource(j)
                }),
    ;
}

/// A reference to a resource map is a resource map.
impl<'a, Resource, M: ResourceMap<Resource>> ResourceMap<Resource> for &'a M {
    type Id = M::Id;

    open spec fn is_reliable(&self) -> bool {
        (**self).is_reliable()
    }

    open spec fn resource(&self, k: M::Id) -> Resource {
        (**self).resource(k)
    }

    fn get(&self, k: M::Id) -> (resource: &Resource) {
        (**self).get(k)
    }
}

/// A `HashMap` with a default value attached, for use when a requested key is not available.
///
/// This map can be used as a resource map, so long as the key is fit to be both the key of a
/// resource map and that of a `HashMap`.
#[derive(Debug, Clone)]
pub struct DefaultingHashMap<K, V> {
    /// The resources that have a key.
    map: HashMap<K, V>,
    /// The resource of every other key.
    default: V,
}

impl<K, V> DefaultingHashMap<K, V> {
    /// The resources that have a key.
    pub closed spec fn entries(&self) -> Map<K, V> {
        self.map@
    }

    /// The resource of every other key.
    pub closed spec fn spec_default(&self) -> V {
        self.default
    }
}

impl<K: Copy + Clone + Default + Eq + Hash, V> ResourceMap<V> for DefaultingHashMap<K, V> {
    type Id = K;

    open spec fn is_reliable(&self) -> bool {
        obeys_key_model::<K>()
    }

    open spec fn resource(&self, k: K) -> V {
        if self.entries().contains_key(k) {
            self.entries()[k]
        } else {
            self.spec_default()
        }
    }

    fn get(&self, k: K) -> (resource: &V) {
        broadcast use vstd::std_specs::hash::group_hash_axioms;

        match self.map.get(&k) {
            Some(resource) => resource,
            None => &self.default,
        }
    }
}

impl<K: Copy + Clone + Default + Eq + Hash, V> MutableMap<V> for DefaultingHashMap<K, V> {
    fn set(&mut self, k: K, v: V) {
        broadcast use vstd::std_specs::hash::group_hash_axioms;

        self.map.insert(k, v);
    }
}

impl<K: Eq + Hash, V> DefaultingHashMap<K, V> {
    /// Constructs a `DefaultingHashMap` by wrapping `map` and supplying the default `default`.
    #[must_use]
    pub fn new(map: HashMap<K, V>, default: V) -> (defaulting: DefaultingHashMap<K, V>)
        ensures
            defaulting.entries() == map@,
            defaulting.spec_default() == default,
    {
        DefaultingHashMap { map, default }
    }

    /// Gets the underlying map's borrowing iterator.
    ///
    /// The default resource is not among what it yields.
    pub fn iter(&self) -> (entries: hash_map::Iter<'_, K, V>)
        ensures
            obeys_key_model::<K>() ==> {
                let yielded = entries.remaining();
                &&& yielded.no_duplicates()
                &&& yielded.len() == self.entries().dom().len()
                &&& forall|i: int|
                    #![trigger self.entries().contains_key(*yielded[i].0)]
                    #![trigger self.entries()[*yielded[i].0]]
                    0 <= i < yielded.len() ==> self.entries().contains_key(*yielded[i].0)
                        && self.entries()[*yielded[i].0] == *yielded[i].1
                &&& forall|k: K| #[trigger]
                    self.entries().contains_key(k) ==> yielded.contains((&k, &self.entries()[k]))
            },
    {
        broadcast use vstd::std_specs::hash::group_hash_axioms;

        self.map.iter()
    }
}

/// The default map has no key, and the default resource for every key.
impl<K, V: Default> Default for DefaultingHashMap<K, V> {
    fn default() -> (defaulting: Self)
        ensures
            defaulting.entries() == Map::<K, V>::empty(),
            call_ensures(V::default, (), defaulting.spec_default()),
    {
        DefaultingHashMap { map: HashMap::new(), default: V::default() }
    }
}

} // verus!
