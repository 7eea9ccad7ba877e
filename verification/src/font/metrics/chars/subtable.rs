//! A store of values by character.

use std::collections::BTreeMap;
use vstd::prelude::*;
use vstd::std_specs::iter::IteratorSpec;

verus! {

/// The number of characters that a [`Subtable`] finds by direct indexing.
pub const ASCII_SLOTS: usize = 128;

/// A store of values by character.
///
/// Lookups of ASCII characters index a table directly; all other characters go through an
/// ordered map.  The view of a subtable is the map from the characters that have a value to
/// their values.
#[derive(Debug, PartialEq, Eq)]
pub struct Subtable<T> {
    /// Slots of the ASCII characters, by code.
    ascii: Vec<Option<T>>,
    /// Values of the other characters, by code point.
    non_ascii: BTreeMap<u32, T>,
}

/// The code point of character `c`.
pub open spec fn code_point(c: char) -> u32 {
    c as u32
}

impl<T> View for Subtable<T> {
    type V = Map<char, T>;

    closed spec fn view(&self) -> Map<char, T> {
        Map::new(
            |c: char|
                if code_point(c) < ASCII_SLOTS {
                    self.ascii@[code_point(c) as int] is Some
                } else {
                    self.non_ascii@.contains_key(code_point(c))
                },
            |c: char|
                if code_point(c) < ASCII_SLOTS {
                    self.ascii@[code_point(c) as int]->0
                } else {
                    self.non_ascii@[code_point(c)]
                },
        )
    }
}

/// The place of `key` among the ASCII slots, if it is an ASCII character.
fn as_ascii(key: char) -> (slot: Option<usize>)
    ensures
        slot == (if code_point(key) < ASCII_SLOTS {
            Some(code_point(key) as usize)
        } else {
            None
        }),
{
    let code = key as u32;
    if code < 128 {
        Some(code as usize)
    } else {
        None
    }
}

/// Two characters that differ have different code points.
pub(crate) broadcast proof fn lemma_codes_differ(a: char, b: char)
    ensures
        a != b ==> #[trigger] code_point(a) != #[trigger] code_point(b),
{
}

/// Code points are ordered as an ordered map asks of its keys.
pub(crate) proof fn lemma_code_points_are_keys()
    ensures
        vstd::laws_cmp::obeys_cmp::<u32>(),
        vstd::std_specs::btree::key_obeys_cmp_spec::<u32>(),
{
    broadcast use vstd::laws_cmp::group_laws_cmp;
    broadcast use vstd::std_specs::btree::group_btree_axioms;

}

/// Gets a mutable reference to the value that `map` holds at `key`.
///
/// This is `BTreeMap::get_mut`.  It hands out the value stored at `key`, if there is one; what
/// the caller leaves in it is what the map holds at `key` afterwards, and no other key changes.
#[verifier::external_body]
fn ordered_get_mut<T>(map: &mut BTreeMap<u32, T>, key: u32) -> (val: Option<&mut T>)
    ensures
        val is Some <==> old(map)@.contains_key(key),
        val is Some ==> *val->0 == old(map)@[key] && final(map)@ == old(map)@.insert(
            key,
            *final(val->0),
        ),
        val is None ==> final(map)@ == old(map)@,
    no_unwind
{
    map.get_mut(&key)
}

/// The character with the code point `code`, if there is one.
///
/// This is `char::from_u32`.  It gives the character whose code point is `code`, and nothing
/// where no character has that code point.
#[verifier::external_body]
fn char_of(code: u32) -> (c: Option<char>)
    ensures
        c matches Some(ch) ==> code_point(ch) == code,
        c is None ==> forall|ch: char| #[trigger] code_point(ch) != code,
{
    char::from_u32(code)
}

/// Lists the characters whose slot holds a value, each once.
fn low_keys<T>(slots: &Vec<Option<T>>) -> (keys: Vec<char>)
    requires
        slots@.len() == ASCII_SLOTS,
    ensures
        keys@.no_duplicates(),
        forall|c: char|
            keys@.contains(c) <==> code_point(c) < ASCII_SLOTS && slots@[code_point(c) as int]
                is Some,
{
    broadcast use {
        vstd::seq_lib::lemma_seq_contains_after_push,
        vstd::seq_lib::lemma_seq_empty_contains_nothing,
        lemma_codes_differ,
    };

    let mut keys: Vec<char> = Vec::new();
    let mut code: u8 = 0;
    while code < 128
        invariant
            code <= ASCII_SLOTS,
            slots@.len() == ASCII_SLOTS,
            keys@.no_duplicates(),
            forall|c: char| #[trigger]
                keys@.contains(c) <==> code_point(c) < code && slots@[code_point(c) as int]
                    is Some,
        decreases ASCII_SLOTS - code,
    {
        broadcast use {vstd::seq_lib::lemma_seq_contains_after_push, lemma_codes_differ};

        if slots[code as usize].is_some() {
            let c = code as char;
            assert(code_point(c) == code);
            assert(!keys@.contains(c));
            keys.push(c);
        }
        code += 1;
    }
    keys
}

/// Lists the characters beyond the slots that are keys of `map`, each once.
fn high_keys<T>(map: &BTreeMap<u32, T>) -> (keys: Vec<char>)
    ensures
        keys@.no_duplicates(),
        forall|c: char|
            keys@.contains(c) <==> code_point(c) >= ASCII_SLOTS && map@.contains_key(
                code_point(c),
            ),
{
    broadcast use {
        vstd::seq_lib::lemma_seq_contains_after_push,
        vstd::seq_lib::lemma_seq_empty_contains_nothing,
        lemma_codes_differ,
    };

    proof {
        lemma_code_points_are_keys();
    }
    let mut keys: Vec<char> = Vec::new();
    let ghost mut seen: Seq<u32> = Seq::empty();
    let ghost all = map.keys().remaining();
    for point in it: map.keys()
        invariant
            it.seq() == all,
            all.no_duplicates(),
            all.unref().to_set() == map@.dom(),
            seen.len() == it.index(),
            forall|j: int| 0 <= j < seen.len() ==> #[trigger] seen[j] == *all[j],
            keys@.no_duplicates(),
            forall|c: char| #[trigger]
                keys@.contains(c) <==> code_point(c) >= ASCII_SLOTS && seen.contains(
                    code_point(c),
                ),
    {
        broadcast use {vstd::seq_lib::lemma_seq_contains_after_push, lemma_codes_differ};

        let ghost k = it.index() as int;
        proof {
            if seen.contains(*point) {
                let j = choose|j: int| 0 <= j < seen.len() && seen[j] == *point;
                assert(all[j] == all[k]);
            }
        }
        if *point >= 128 {
            if let Some(c) = char_of(*point) {
                assert(!keys@.contains(c));
                keys.push(c);
            }
        }
        proof {
            seen = seen.push(*point);
        }
    }
    proof {
        assert(seen =~= all.unref());
        assert forall|p: u32| seen.contains(p) <==> map@.contains_key(p) by {
            assert(seen.to_set().contains(p) <==> map@.dom().contains(p));
        }
    }
    keys
}

impl<T> Subtable<T> {
    #[verifier::type_invariant]
    spec fn slots_are_complete(self) -> bool {
        self.ascii@.len() == ASCII_SLOTS
    }

    /// Writing `val` into the place of `key` inserts it into the view.
    proof fn lemma_view_after_write(before: Self, after: Self, key: char, val: T)
        requires
            before.ascii@.len() == ASCII_SLOTS,
            code_point(key) < ASCII_SLOTS ==> after.ascii@ == before.ascii@.update(
                code_point(key) as int,
                Some(val),
            ) && after.non_ascii@ == before.non_ascii@,
            code_point(key) >= ASCII_SLOTS ==> after.ascii@ == before.ascii@ && after.non_ascii@
                == before.non_ascii@.insert(code_point(key), val),
        ensures
            after@ == before@.insert(key, val),
    {
        assert(after@.dom() =~= before@.insert(key, val).dom()) by {
            assert forall|c: char|
                after@.dom().contains(c) == #[trigger] before@.insert(key, val).dom().contains(
                    c,
                ) by {
                lemma_codes_differ(c, key);
            }
        }
        assert forall|c: char| #[trigger] after@.dom().contains(c) implies after@[c]
            == before@.insert(key, val)[c] by {
            lemma_codes_differ(c, key);
        }
        assert(after@ =~= before@.insert(key, val));
    }

    /// A subtable whose parts have the same views has the same view.
    proof fn lemma_view_unchanged(before: Self, after: Self)
        requires
            after.ascii@ == before.ascii@,
            after.non_ascii@ == before.non_ascii@,
        ensures
            after@ == before@,
    {
        assert(after@ =~= before@);
    }

    /// Makes a subtable that holds no value.
    #[must_use]
    pub fn new() -> (table: Self)
        ensures
            table@ == Map::<char, T>::empty(),
    {
        let mut ascii: Vec<Option<T>> = Vec::new();
        while ascii.len() < ASCII_SLOTS
            invariant
                ascii@.len() <= ASCII_SLOTS,
                forall|i: int| 0 <= i < ascii@.len() ==> ascii@[i] is None,
            decreases ASCII_SLOTS - ascii@.len(),
        {
            ascii.push(None);
        }
        let table = Self { ascii, non_ascii: BTreeMap::new() };
        assert(table@ =~= Map::<char, T>::empty());
        table
    }

    /// Inserts value `val` at character `key`, in place of any value that was there.
    pub fn insert(&mut self, key: char, val: T)
        ensures
            final(self)@ == old(self)@.insert(key, val),
    {
        proof {
            use_type_invariant(&*self);
            lemma_code_points_are_keys();
        }
        if let Some(x) = as_ascii(key) {
            self.ascii[x] = Some(val);
        } else {
            // The map leaves the table while it changes.
            let mut others: BTreeMap<u32, T> = BTreeMap::new();
            core::mem::swap(&mut self.non_ascii, &mut others);
            others.insert(key as u32, val);
            core::mem::swap(&mut self.non_ascii, &mut others);
        }
        proof {
            Self::lemma_view_after_write(*old(self), *self, key, val);
        }
    }

    /// Gets a mutable reference to the value for character `key`.
    #[must_use]
    pub fn get_mut(&mut self, key: char) -> (val: Option<&mut T>)
        ensures
            val is Some <==> old(self)@.contains_key(key),
            val is Some ==> *val->0 == old(self)@[key] && final(self)@ == old(self)@.insert(
                key,
                *final(val->0),
            ),
            val is None ==> final(self)@ == old(self)@,
    {
        proof {
            use_type_invariant(&*self);
            lemma_code_points_are_keys();
            // Whatever the caller writes through the reference, the view follows it.
            assert forall|after: Self, v: T|
                (code_point(key) < ASCII_SLOTS ==> after.ascii@ == self.ascii@.update(
                    code_point(key) as int,
                    Some(v),
                ) && after.non_ascii@ == self.non_ascii@) && (code_point(key) >= ASCII_SLOTS
                    ==> after.ascii@ == self.ascii@ && after.non_ascii@
                    == self.non_ascii@.insert(code_point(key), v)) implies #[trigger] after@
                == #[trigger] self@.insert(key, v) by {
                Self::lemma_view_after_write(*self, after, key, v);
            }
            assert forall|after: Self|
                after.ascii@ == self.ascii@ && after.non_ascii@
                    == self.non_ascii@ implies #[trigger] after@ == self@ by {
                Self::lemma_view_unchanged(*self, after);
            }
        }
        if let Some(x) = as_ascii(key) {
            self.ascii[x].as_mut()
        } else {
            ordered_get_mut(&mut self.non_ascii, key as u32)
        }
    }

    /// Takes the value for character `key` out of the table.
    pub fn remove(&mut self, key: char) -> (val: Option<T>)
        ensures
            final(self)@ == old(self)@.remove(key),
            val is Some <==> old(self)@.contains_key(key),
            val is Some ==> val->0 == old(self)@[key],
    {
        let ghost before = *self;
        proof {
            use_type_invariant(&*self);
            lemma_code_points_are_keys();
        }
        let val = if let Some(x) = as_ascii(key) {
            let mut slot: Option<T> = None;
            core::mem::swap(&mut self.ascii[x], &mut slot);
            slot
        } else {
            // The map leaves the table while it changes.
            let mut others: BTreeMap<u32, T> = BTreeMap::new();
            core::mem::swap(&mut self.non_ascii, &mut others);
            let val = others.remove(&(key as u32));
            core::mem::swap(&mut self.non_ascii, &mut others);
            val
        };
        proof {
            assert(self@.dom() =~= before@.remove(key).dom()) by {
                assert forall|c: char|
                    self@.dom().contains(c) == #[trigger] before@.remove(key).dom().contains(
                        c,
                    ) by {
                    lemma_codes_differ(c, key);
                }
            }
            assert forall|c: char| #[trigger] self@.dom().contains(c) implies self@[c]
                == before@.remove(key)[c] by {
                lemma_codes_differ(c, key);
            }
            assert(self@ =~= before@.remove(key));
        }
        val
    }

    /// Lists the characters that have a value, each once.
    #[must_use]
    pub fn keys(&self) -> (keys: Vec<char>)
        ensures
            forall|c: char| keys@.contains(c) <==> self@.contains_key(c),
            keys@.no_duplicates(),
    {
        proof {
            use_type_invariant(self);
        }
        let mut keys = low_keys(&self.ascii);
        let mut high = high_keys(&self.non_ascii);
        proof {
            broadcast use vstd::seq_lib::lemma_seq_concat_contains_all_elements;

            let low = keys@;
            assert forall|i: int, j: int| 0 <= i < j < (low + high@).len() implies (low + high@)[i]
                != (low + high@)[j] by {
                if i < low.len() && j >= low.len() {
                    assert(low.contains(low[i]));
                    assert(high@.contains(high@[j - low.len()]));
                }
            }
        }
        keys.append(&mut high);
        keys
    }

    /// Gets the value for character `key`.
    #[must_use]
    pub fn get(&self, key: char) -> (val: Option<&T>)
        ensures
            val is Some <==> self@.contains_key(key),
            val is Some ==> *val->0 == self@[key],
    {
        proof {
            use_type_invariant(self);
            lemma_code_points_are_keys();
        }
        if let Some(x) = as_ascii(key) {
            self.ascii[x].as_ref()
        } else {
            self.non_ascii.get(&(key as u32))
        }
    }
}

/// A copy of a subtable holds a copy of each value.
impl<T: Clone> Clone for Subtable<T> {
    fn clone(&self) -> (copy: Self)
        ensures
            forall|c: char| self@.contains_key(c) == #[trigger] copy@.contains_key(c),
            forall|c: char| #[trigger] self@.contains_key(c) ==> cloned::<T>(self@[c], copy@[c]),
    {
        proof {
            use_type_invariant(self);
        }
        let mut ascii: Vec<Option<T>> = Vec::new();
        let mut i: usize = 0;
        while i < ASCII_SLOTS
            invariant
                i <= ASCII_SLOTS,
                self.ascii@.len() == ASCII_SLOTS,
                ascii@.len() == i,
                forall|k: int|
                    0 <= k < i ==> (#[trigger] ascii@[k] is Some) == (self.ascii@[k] is Some),
                forall|k: int|
                    0 <= k < i && #[trigger] self.ascii@[k] is Some ==> cloned::<T>(
                        self.ascii@[k]->0,
                        ascii@[k]->0,
                    ),
            decreases ASCII_SLOTS - i,
        {
            ascii.push(self.ascii[i].clone());
            i += 1;
        }
        Subtable { ascii, non_ascii: self.non_ascii.clone() }
    }
}

/// The default subtable holds no value.
impl<T> Default for Subtable<T> {
    fn default() -> (table: Self)
        ensures
            table@ == Map::<char, T>::empty(),
    {
        Self::new()
    }
}

} // verus!
