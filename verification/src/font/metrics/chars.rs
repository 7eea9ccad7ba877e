//! Compiled character tables for widths and kerning pairs.

pub mod subtable;

use vstd::prelude::*;

pub use subtable::Subtable;

use super::kerning;
use super::width;
use crate::font::error::Error;
use crate::metrics::length::Length;

verus! {

/// The lengths `base`, and `length` for each of the characters `chars`.
pub open spec fn extended(base: Map<char, Length>, chars: Seq<char>, length: Length) -> Map<
    char,
    Length,
> {
    Map::new(
        |c: char| base.contains_key(c) || chars.contains(c),
        |c: char|
            if chars.contains(c) {
                length
            } else {
                base[c]
            },
    )
}

/// The first `k + 1` of some characters are the first `k` and the one after them.
pub(crate) proof fn lemma_take_next(chars: Seq<char>, k: int)
    requires
        0 <= k < chars.len(),
    ensures
        forall|c: char| #[trigger]
            chars.take(k + 1).contains(c) <==> chars.take(k).contains(c) || c == chars[k],
{
    assert(chars.take(k + 1) =~= chars.take(k).push(chars[k]));
    assert forall|c: char| #[trigger]
        chars.take(k + 1).contains(c) <==> chars.take(k).contains(c) || c == chars[k] by {
        vstd::seq_lib::lemma_seq_contains_after_push(chars.take(k), chars[k], c);
    }
}

/// What the table knows of one character: its width, and the spacing between it and the
/// character that follows it.
///
/// The width serves to advance past the character in the layout algorithm.  Both aspects share
/// one entry so that the algorithm looks a character up once.
#[derive(Clone, Debug, PartialEq, Eq)]
pub struct Entry {
    /// The width of this character.
    pub width: Length,
    /// The right kerning table of this character, if any.
    ///
    /// This maps characters on the right-hand side of a pair to the spacing between this
    /// character and them.  Each spacing is absolute: it replaces the default spacing.
    pub rights: Option<Subtable<Length>>,
    /// The spacing before any character that is not in the kerning table.
    pub default_kerning: Length,
}

/// The default entry has everything zeroed.
impl Default for Entry {
    fn default() -> (entry: Self)
        ensures
            entry.width == 0,
            entry.rights is None,
            entry.default_kerning == 0,
    {
        Entry { width: 0, rights: None, default_kerning: 0 }
    }
}

impl Entry {
    /// The spacing between this entry's character and `right`.
    pub open spec fn spec_kerning(&self, right: char) -> Length {
        match self.rights {
            Some(rights) if rights@.contains_key(right) => rights@[right],
            _ => self.default_kerning,
        }
    }

    /// Gets the spacing between this entry's character and `right`.
    #[must_use]
    pub fn kerning(&self, right: char) -> (spacing: Length)
        ensures
            spacing == self.spec_kerning(right),
    {
        match &self.rights {
            Some(rights) => match rights.get(right) {
                Some(spacing) => *spacing,
                None => self.default_kerning,
            },
            None => self.default_kerning,
        }
    }
}

/// Character table: an [`Entry`] for every character.
///
/// Characters that were never configured share one default entry.  A default character table
/// maps every character's metrics to zero.
#[derive(Clone, Debug)]
pub struct Table {
    /// The entries of the configured characters.
    entries: Subtable<Entry>,
    /// The entry of every other character.
    default: Entry,
}

/// The default table gives every character the default entry.
impl Default for Table {
    fn default() -> (table: Self)
        ensures
            forall|c: char| #[trigger] table.entry(c).width == 0,
            forall|c: char| #[trigger] table.entry(c).rights is None,
            forall|c: char| #[trigger] table.entry(c).default_kerning == 0,
    {
        Table { entries: Subtable::new(), default: Entry::default() }
    }
}

/// The entry that `table` has for `c`, or else `default`.
spec fn entry_or(table: Map<char, Entry>, default: Entry, c: char) -> Entry {
    if table.contains_key(c) {
        table[c]
    } else {
        default
    }
}

/// Whether `entry` is `base` with the kerning table `rights`.
spec fn kerned(entry: Entry, base: Entry, rights: Map<char, Length>) -> bool {
    &&& entry.width == base.width
    &&& entry.default_kerning == base.default_kerning
    &&& entry.rights matches Some(table) && table@ == rights
}

/// Whether `entry` is `base` with the width `width`.
spec fn widened(entry: Entry, base: Entry, width: Length) -> bool {
    &&& entry.width == width
    &&& entry.default_kerning == base.default_kerning
    &&& entry.rights == base.rights
}

/// Whether `table` is `before` but for the characters `done`, each of which has its kerning
/// table from `tables`, in the entry that it had or else in one that is otherwise as `default`.
spec fn kerning_added(
    table: Map<char, Entry>,
    before: Map<char, Entry>,
    default: Entry,
    tables: Map<char, Map<char, Length>>,
    done: Seq<char>,
) -> bool {
    forall|c: char|
        #![trigger table.contains_key(c)]
        #![trigger table[c]]
        if done.contains(c) {
            table.contains_key(c) && kerned(table[c], entry_or(before, default, c), tables[c])
        } else {
            table.contains_key(c) == before.contains_key(c) && (before.contains_key(c)
                ==> table[c] == before[c])
        }
}

/// Whether `table` is `before` but for the characters `done`, each of which has its width from
/// `widths`, in the entry that it had or else in one that is otherwise as `default`.
spec fn widths_added(
    table: Map<char, Entry>,
    before: Map<char, Entry>,
    default: Entry,
    widths: Map<char, Length>,
    done: Seq<char>,
) -> bool {
    forall|c: char|
        #![trigger table.contains_key(c)]
        #![trigger table[c]]
        if done.contains(c) {
            table.contains_key(c) && widened(table[c], entry_or(before, default, c), widths[c])
        } else {
            table.contains_key(c) == before.contains_key(c) && (before.contains_key(c)
                ==> table[c] == before[c])
        }
}

/// Kerning one more character keeps what was done for the others.
proof fn lemma_kerning_added(
    table: Map<char, Entry>,
    before: Map<char, Entry>,
    default: Entry,
    tables: Map<char, Map<char, Length>>,
    done: Seq<char>,
    c: char,
    entry: Entry,
)
    requires
        kerning_added(table, before, default, tables, done),
        !done.contains(c),
        kerned(entry, entry_or(table, default, c), tables[c]),
    ensures
        kerning_added(table.insert(c, entry), before, default, tables, done.push(c)),
{
    let after = table.insert(c, entry);
    assert forall|d: char|
        #![trigger after.contains_key(d)]
        #![trigger after[d]]
        if done.push(c).contains(d) {
            after.contains_key(d) && kerned(after[d], entry_or(before, default, d), tables[d])
        } else {
            after.contains_key(d) == before.contains_key(d) && (before.contains_key(d)
                ==> after[d] == before[d])
        } by {
        lemma_kept(table, before, default, tables, done, c, entry, d);
    }
}

/// What kerning `c` does to the entry of `d`.
proof fn lemma_kept(
    table: Map<char, Entry>,
    before: Map<char, Entry>,
    default: Entry,
    tables: Map<char, Map<char, Length>>,
    done: Seq<char>,
    c: char,
    entry: Entry,
    d: char,
)
    requires
        kerning_added(table, before, default, tables, done),
        !done.contains(c),
        kerned(entry, entry_or(table, default, c), tables[c]),
    ensures
        if done.push(c).contains(d) {
            table.insert(c, entry).contains_key(d) && kerned(
                table.insert(c, entry)[d],
                entry_or(before, default, d),
                tables[d],
            )
        } else {
            table.insert(c, entry).contains_key(d) == before.contains_key(d) && (
            before.contains_key(d) ==> table.insert(c, entry)[d] == before[d])
        },
{
    vstd::seq_lib::lemma_seq_contains_after_push(done, c, d);
}

/// Widening one more character keeps what was done for the others.
proof fn lemma_widths_added(
    table: Map<char, Entry>,
    before: Map<char, Entry>,
    default: Entry,
    widths: Map<char, Length>,
    done: Seq<char>,
    c: char,
    entry: Entry,
)
    requires
        widths_added(table, before, default, widths, done),
        !done.contains(c),
        widened(entry, entry_or(table, default, c), widths[c]),
    ensures
        widths_added(table.insert(c, entry), before, default, widths, done.push(c)),
{
    let after = table.insert(c, entry);
    assert forall|d: char|
        #![trigger after.contains_key(d)]
        #![trigger after[d]]
        if done.push(c).contains(d) {
            after.contains_key(d) && widened(after[d], entry_or(before, default, d), widths[d])
        } else {
            after.contains_key(d) == before.contains_key(d) && (before.contains_key(d)
                ==> after[d] == before[d])
        } by {
        lemma_widened(table, before, default, widths, done, c, entry, d);
    }
}

/// What widening `c` does to the entry of `d`.
proof fn lemma_widened(
    table: Map<char, Entry>,
    before: Map<char, Entry>,
    default: Entry,
    widths: Map<char, Length>,
    done: Seq<char>,
    c: char,
    entry: Entry,
    d: char,
)
    requires
        widths_added(table, before, default, widths, done),
        !done.contains(c),
        widened(entry, entry_or(table, default, c), widths[c]),
    ensures
        if done.push(c).contains(d) {
            table.insert(c, entry).contains_key(d) && widened(
                table.insert(c, entry)[d],
                entry_or(before, default, d),
                widths[d],
            )
        } else {
            table.insert(c, entry).contains_key(d) == before.contains_key(d) && (
            before.contains_key(d) ==> table.insert(c, entry)[d] == before[d])
        },
{
    vstd::seq_lib::lemma_seq_contains_after_push(done, c, d);
}

/// The entry of `c` after kerning tables and then widths were added to a table.
proof fn lemma_compiled_entry(
    start: Map<char, Entry>,
    kerned_table: Map<char, Entry>,
    table: Map<char, Entry>,
    default: Entry,
    tables: Map<char, Map<char, Length>>,
    widths: Map<char, Length>,
    c: char,
)
    requires
        start == Map::<char, Entry>::empty(),
        default.rights is None,
        forall|c: char|
            #![trigger kerned_table.contains_key(c)]
            #![trigger kerned_table[c]]
            if tables.contains_key(c) {
                kerned_table.contains_key(c) && kerned(
                    kerned_table[c],
                    entry_or(start, default, c),
                    tables[c],
                )
            } else {
                kerned_table.contains_key(c) == start.contains_key(c) && (start.contains_key(c)
                    ==> kerned_table[c] == start[c])
            },
        forall|c: char|
            #![trigger table.contains_key(c)]
            #![trigger table[c]]
            if widths.contains_key(c) {
                table.contains_key(c) && widened(
                    table[c],
                    entry_or(kerned_table, default, c),
                    widths[c],
                )
            } else {
                table.contains_key(c) == kerned_table.contains_key(c) && (
                kerned_table.contains_key(c) ==> table[c] == kerned_table[c])
            },
    ensures
        ({
            let entry = entry_or(table, default, c);
            &&& entry.width == (if widths.contains_key(c) {
                widths[c]
            } else {
                default.width
            })
            &&& entry.default_kerning == default.default_kerning
            &&& match entry.rights {
                Some(rights) => tables.contains_key(c) && rights@ == tables[c],
                None => !tables.contains_key(c),
            }
        }),
{
}

/// Whether `tables` still holds the kerning table of each character that has one in `all` and
/// is not among `done`.
spec fn left_over(
    tables: Map<char, Subtable<Length>>,
    all: Map<char, Map<char, Length>>,
    done: Seq<char>,
) -> bool {
    forall|c: char|
        #[trigger] all.contains_key(c) && !done.contains(c) ==> tables.contains_key(c)
            && tables[c]@ == all[c]
}

/// Before any table is taken out, all are there.
proof fn lemma_all_left_over(tables: Map<char, Subtable<Length>>)
    ensures
        left_over(tables, kerning::tables_of(tables), Seq::empty()),
{
}

/// Taking out the table of one character leaves the tables of the others.
proof fn lemma_left_over(
    tables: Map<char, Subtable<Length>>,
    all: Map<char, Map<char, Length>>,
    done: Seq<char>,
    c: char,
)
    requires
        left_over(tables, all, done),
    ensures
        left_over(tables.remove(c), all, done.push(c)),
{
    assert forall|d: char| #[trigger] all.contains_key(d) && !done.push(c).contains(d) implies {
        tables.remove(c).contains_key(d) && tables.remove(c)[d]@ == all[d]
    } by {
        vstd::seq_lib::lemma_seq_contains_after_push(done, c, d);
    }
}

/// A character among the first `k + 1` of distinct characters that is not among the first `k`.
proof fn lemma_next_is_new(chars: Seq<char>, k: int)
    requires
        chars.no_duplicates(),
        0 <= k < chars.len(),
    ensures
        !chars.take(k).contains(chars[k]),
        chars.contains(chars[k]),
        chars.take(k + 1) == chars.take(k).push(chars[k]),
{
    if chars.take(k).contains(chars[k]) {
        let j = choose|j: int| 0 <= j < k && chars.take(k)[j] == chars[k];
        assert(chars[j] == chars[k]);
    }
    assert(chars.take(k + 1) =~= chars.take(k).push(chars[k]));
}

/// Gives each character that has a kerning table in `kerning` that table, in its entry in
/// `table` or else in a new entry that is otherwise as `default`.
fn add_kerning(table: &mut Subtable<Entry>, kerning: kerning::KerningMap, default: &Entry)
    ensures
        forall|c: char|
            #![trigger final(table)@.contains_key(c)]
            #![trigger final(table)@[c]]
            if kerning.tables().contains_key(c) {
                final(table)@.contains_key(c) && kerned(
                    final(table)@[c],
                    entry_or(old(table)@, *default, c),
                    kerning.tables()[c],
                )
            } else {
                final(table)@.contains_key(c) == old(table)@.contains_key(c) && (old(
                    table,
                )@.contains_key(c) ==> final(table)@[c] == old(table)@[c])
            },
{
    let ghost all = kerning.tables();
    let (tables, _) = kerning.into_parts();
    let mut tables = tables;
    let keys = tables.keys();
    let ghost chars = keys@;
    proof {
        assert(chars.take(0) =~= Seq::<char>::empty());
        lemma_all_left_over(tables@);
        assert(all == kerning::tables_of(tables@));
        assert forall|ch: char| chars.contains(ch) <==> #[trigger] all.contains_key(ch) by {
            assert(all.contains_key(ch) <==> tables@.contains_key(ch));
        }
    }
    for c in it: keys
        invariant
            it.seq() == chars,
            chars.no_duplicates(),
            forall|ch: char| chars.contains(ch) <==> #[trigger] all.contains_key(ch),
            left_over(tables@, all, chars.take(it.index() as int)),
            kerning_added(table@, old(table)@, *default, all, chars.take(it.index() as int)),
    {
        let ghost k = it.index() as int;
        let ghost done = chars.take(k);
        proof {
            lemma_next_is_new(chars, k);
            assert(all.contains_key(c));
            assert(tables@.contains_key(c) && tables@[c]@ == all[c]);
            lemma_left_over(tables@, all, done, c);
        }
        if let Some(kern) = tables.remove(c) {
            let ghost before = table@;
            let ghost rights = kern@;
            let rights = Some(kern);
            assert(table@.contains_key(c) ==> table@[c] == before[c]);
            if let Some(entry) = table.get_mut(c) {
                entry.rights = rights;
            } else {
                table.insert(
                    c,
                    Entry { width: default.width, rights, default_kerning: default.default_kerning },
                );
            }
            proof {
                assert(table@ == before.insert(c, table@[c]));
                lemma_kerning_added(before, old(table)@, *default, all, done, c, table@[c]);
            }
        }
    }
    proof {
        assert(chars.take(chars.len() as int) =~= chars);
    }
}

/// Gives each character that has a width in `width` that width, in its entry in `table` or
/// else in a new entry that is otherwise as `default`.
fn add_width(table: &mut Subtable<Entry>, width: width::WidthMap, default: &Entry)
    requires
        default.rights is None,
    ensures
        forall|c: char|
            #![trigger final(table)@.contains_key(c)]
            #![trigger final(table)@[c]]
            if width.overrides().contains_key(c) {
                final(table)@.contains_key(c) && widened(
                    final(table)@[c],
                    entry_or(old(table)@, *default, c),
                    width.overrides()[c],
                )
            } else {
                final(table)@.contains_key(c) == old(table)@.contains_key(c) && (old(
                    table,
                )@.contains_key(c) ==> final(table)@[c] == old(table)@[c])
            },
{
    let (overrides, _) = width.into_parts();
    let keys = overrides.keys();
    let ghost chars = keys@;
    proof {
        assert(chars.take(0) =~= Seq::<char>::empty());
    }
    for c in it: keys
        invariant
            it.seq() == chars,
            chars.no_duplicates(),
            default.rights is None,
            forall|ch: char| chars.contains(ch) <==> #[trigger] overrides@.contains_key(ch),
            widths_added(
                table@,
                old(table)@,
                *default,
                overrides@,
                chars.take(it.index() as int),
            ),
    {
        let ghost k = it.index() as int;
        let ghost done = chars.take(k);
        proof {
            lemma_next_is_new(chars, k);
            assert(overrides@.contains_key(c));
        }
        if let Some(width) = overrides.get(c) {
            let width = *width;
            let ghost before = table@;
            if let Some(entry) = table.get_mut(c) {
                entry.width = width;
            } else {
                table.insert(
                    c,
                    Entry { width, rights: None, default_kerning: default.default_kerning },
                );
            }
            proof {
                assert(table@ == before.insert(c, table@[c]));
                lemma_widths_added(before, old(table)@, *default, overrides@, done, c, table@[c]);
            }
        }
    }
    proof {
        assert(chars.take(chars.len() as int) =~= chars);
    }
}

impl Table {
    /// The entry of character `c`.
    pub closed spec fn entry(&self, c: char) -> Entry {
        if self.entries@.contains_key(c) {
            self.entries@[c]
        } else {
            self.default
        }
    }

    /// The width of character `c`.
    pub open spec fn width(&self, c: char) -> int {
        self.entry(c).width as int
    }

    /// The spacing between `left` and `right` where `right` directly follows `left`.
    pub open spec fn kerning(&self, left: char, right: char) -> int {
        self.entry(left).spec_kerning(right) as int
    }

    /// Whether this table is what the width overrides `width` and the kerning pairs `kerning`
    /// compile to, where a character without an override is `default_width` wide and the
    /// spacing between two characters without a kerning pair is `default_kerning`.
    ///
    /// Each character has the width that its last override gives it.  It has a kerning table
    /// where it is in the left class of a kerning pair, and that table holds the spacings of
    /// the kerning pairs.
    pub open spec fn compiles(
        &self,
        width: &width::Spec,
        default_width: Length,
        kerning: &kerning::Spec,
        default_kerning: Length,
    ) -> bool {
        let widths = width::widths(width@, width@.len() as int);
        let tables = kerning.compiled(kerning.pairs@.len() as int);
        forall|c: char|
            {
                let entry = #[trigger] self.entry(c);
                &&& entry.width == (if widths.contains_key(c) {
                    widths[c]
                } else {
                    default_width
                })
                &&& entry.default_kerning == default_kerning
                &&& match entry.rights {
                    Some(rights) => tables.contains_key(c) && rights@ == tables[c],
                    None => !tables.contains_key(c),
                }
            }
    }

    /// A compiled table has no character wider than the grid, where no override is.
    pub proof fn lemma_compiled_widths_fit(
        &self,
        width: &width::Spec,
        default_width: Length,
        kerning: &kerning::Spec,
        default_kerning: Length,
    )
        requires
            self.compiles(width, default_width, kerning, default_kerning),
            width::first_oversize(width@, default_width, width@.len() as int) is None,
        ensures
            forall|c: char| #[trigger] self.width(c) <= default_width,
    {
        assert forall|c: char| #[trigger] self.width(c) <= default_width by {
            let widths = width::widths(width@, width@.len() as int);
            let entry = self.entry(c);
            if widths.contains_key(c) {
                width::lemma_widths_fit_grid(width@, default_width, width@.len() as int, c);
            }
        }
    }

    /// Compiles a character table from width and kerning specifications.
    ///
    /// A character that neither specification speaks of is `default_width` wide, has no
    /// kerning table, and is followed by a spacing of `default_kerning`.
    ///
    /// # Errors
    ///
    /// Fails if the kerning specification names a class that is missing, or else if the width
    /// specification asks for a width larger than `default_width`.
    pub fn new(
        width: width::Spec,
        default_width: Length,
        kerning: kerning::Spec,
        default_kerning: Length,
    ) -> (result: Result<Self, Error>)
        ensures
            match result {
                Ok(table) => {
                    &&& kerning.first_fault(kerning.pairs@.len() as int) is None
                    &&& width::first_oversize(width@, default_width, width@.len() as int)
                        is None
                    &&& table.compiles(&width, default_width, &kerning, default_kerning)
                },
                Err(Error::Kerning(kerning::Error::MissingClass { dir, class })) => {
                    kerning.first_fault(kerning.pairs@.len() as int) == Some((dir, class@))
                },
                Err(Error::OverlyLargeOverride { grid_width, override_width }) => {
                    &&& kerning.first_fault(kerning.pairs@.len() as int) is None
                    &&& grid_width == default_width
                    &&& width::first_oversize(width@, default_width, width@.len() as int)
                        == Some(override_width)
                },
                Err(_) => false,
            },
    {
        let mut table: Subtable<Entry> = Subtable::new();

        let default = Entry { width: default_width, rights: None, default_kerning };

        let kerning_map = match kerning.into_map(default_kerning) {
            Ok(map) => map,
            Err(error) => {
                return Err(Error::Kerning(error));
            },
        };
        add_kerning(&mut table, kerning_map, &default);
        let ghost kerned = table@;
        let width_map = match width.into_map(default_width) {
            Ok(map) => map,
            Err(error) => {
                return Err(error);
            },
        };
        add_width(&mut table, width_map, &default);

        let table = Self { entries: table, default };
        proof {
            let widths = width::widths(width@, width@.len() as int);
            let tables = kerning.compiled(kerning.pairs@.len() as int);
            assert forall|c: char|
                {
                    let entry = #[trigger] table.entry(c);
                    &&& entry.width == (if widths.contains_key(c) {
                        widths[c]
                    } else {
                        default_width
                    })
                    &&& entry.default_kerning == default_kerning
                    &&& match entry.rights {
                        Some(rights) => tables.contains_key(c) && rights@ == tables[c],
                        None => !tables.contains_key(c),
                    }
                } by {
                lemma_compiled_entry(
                    Map::empty(),
                    kerned,
                    table.entries@,
                    default,
                    tables,
                    widths,
                    c,
                );
            }
        }
        Ok(table)
    }

    /// Looks up the entry of character `c`.
    #[must_use]
    pub fn get(&self, c: char) -> (entry: &Entry)
        ensures
            *entry == self.entry(c),
    {
        match self.entries.get(c) {
            Some(entry) => entry,
            None => &self.default,
        }
    }
}

} // verus!
