//! Kerning tables.
//!
//! Kerning goes by classes: a table of classes for the character on the left of a gap, one for
//! the character on its right, and spacings for pairs of a left and a right class.

use vstd::prelude::*;

use super::chars::{extended, lemma_take_next, Subtable};
use crate::metrics::length::Length;

verus! {

/// Identifier type for kerning classes.
pub type Class = String;

/// A table of kerning classes: names, each with the characters of the class.
///
/// Where two classes share a name, the later one counts.
pub type ClassTable = Vec<(Class, String)>;

/// A table of spacings for pairs of a left class and a right class.
///
/// Each spacing is absolute: it takes the place of the default spacing.  Where two pairs
/// speak of the same two characters, the later one counts.
pub type PairTable = Vec<((Class, Class), Length)>;

/// The side of a gap that a kerning class is for.
#[derive(Copy, Clone, Debug, PartialEq, Eq, Structural)]
pub enum Direction {
    /// Left class.
    Left,
    /// Right class.
    Right,
}

/// Enumeration of possible errors when compiling a kerning list.
#[derive(Clone, Debug, PartialEq, Eq)]
pub enum Error {
    /// The given kerning class was missing.
    MissingClass {
        /// The table in which the class was looked for.
        dir: Direction,
        /// The name of the class.
        class: Class,
    },
}

/// A complete kerning specification.
///
/// The names of the classes refer to the side of the gap on which their characters stand; a
/// left class thus groups characters by their right edges, and a right class by their left
/// edges.
#[derive(Clone, Debug)]
pub struct Spec {
    /// The left-character class table, grouping characters by how they are kerned on the right.
    pub left: ClassTable,
    /// The right-character class table, grouping characters by how they are kerned on the left.
    pub right: ClassTable,
    /// The pair table, mapping left/right classes to spacing overrides.
    pub pairs: PairTable,
}

/// The default kerning specification has no class and no pair.
impl Default for Spec {
    fn default() -> (spec: Self)
        ensures
            spec.left@.len() == 0,
            spec.right@.len() == 0,
            spec.pairs@.len() == 0,
    {
        Spec { left: Vec::new(), right: Vec::new(), pairs: Vec::new() }
    }
}

/// The characters of the class named `class` in `table`, if the table has such a class.
pub open spec fn class_chars(table: Seq<(Class, String)>, class: Seq<char>) -> Option<Seq<char>>
    decreases table.len(),
{
    if table.len() == 0 {
        None
    } else if table.last().0@ == class {
        Some(table.last().1@)
    } else {
        class_chars(table.drop_last(), class)
    }
}

/// The spacings that `tables` has after `l`: none, where it has no table for `l`.
pub open spec fn rights_of(tables: Map<char, Map<char, Length>>, l: char) -> Map<char, Length> {
    if tables.contains_key(l) {
        tables[l]
    } else {
        Map::empty()
    }
}

/// The kerning tables `tables`, and the spacing `length` between each of the characters
/// `lefts` and each of the characters `rights`.
pub open spec fn kerned_by(
    tables: Map<char, Map<char, Length>>,
    lefts: Seq<char>,
    rights: Seq<char>,
    length: Length,
) -> Map<char, Map<char, Length>> {
    Map::new(
        |l: char| tables.contains_key(l) || lefts.contains(l),
        |l: char|
            if lefts.contains(l) {
                extended(rights_of(tables, l), rights, length)
            } else {
                tables[l]
            },
    )
}

impl Spec {
    /// The class table for the side `dir`.
    pub open spec fn spec_class_table(&self, dir: Direction) -> Seq<(Class, String)> {
        match dir {
            Direction::Left => self.left@,
            Direction::Right => self.right@,
        }
    }

    /// The characters of the class `class` for the side `dir`, if there is such a class.
    pub open spec fn chars_of(&self, dir: Direction, class: Seq<char>) -> Option<Seq<char>> {
        class_chars(self.spec_class_table(dir), class)
    }

    /// The characters of the left class of pair `i`.
    pub open spec fn lefts(&self, i: int) -> Option<Seq<char>> {
        self.chars_of(Direction::Left, self.pairs@[i].0.0@)
    }

    /// The characters of the right class of pair `i`.
    pub open spec fn rights(&self, i: int) -> Option<Seq<char>> {
        self.chars_of(Direction::Right, self.pairs@[i].0.1@)
    }

    /// The class that pair `i` names and no table has, with its side: the left class, where
    /// both are missing.
    pub open spec fn fault(&self, i: int) -> Option<(Direction, Seq<char>)> {
        if self.lefts(i) is None {
            Some((Direction::Left, self.pairs@[i].0.0@))
        } else if self.rights(i) is None {
            Some((Direction::Right, self.pairs@[i].0.1@))
        } else {
            None
        }
    }

    /// The fault of the first among the first `n` pairs that has one.
    pub open spec fn first_fault(&self, n: int) -> Option<(Direction, Seq<char>)>
        decreases n,
    {
        if n <= 0 {
            None
        } else {
            match self.first_fault(n - 1) {
                Some(fault) => Some(fault),
                None => self.fault(n - 1),
            }
        }
    }

    /// The kerning tables that the first `n` pairs compile to.
    ///
    /// A character has a table where it is in the left class of a pair.  The table holds a
    /// spacing for each character in the right class of such a pair, and where several pairs
    /// speak of the same two characters, the spacing of the last one.
    pub open spec fn compiled(&self, n: int) -> Map<char, Map<char, Length>>
        decreases n,
    {
        if n <= 0 {
            Map::empty()
        } else {
            kerned_by(
                self.compiled(n - 1),
                self.lefts(n - 1)->0,
                self.rights(n - 1)->0,
                self.pairs@[n - 1].1,
            )
        }
    }

    /// The class table for the side `dir`.
    fn class_table(&self, dir: Direction) -> (table: &ClassTable)
        ensures
            table@ == self.spec_class_table(dir),
    {
        match dir {
            Direction::Left => &self.left,
            Direction::Right => &self.right,
        }
    }

    /// Looks up the characters of the class `class` for the side `dir`.
    fn class(&self, dir: Direction, class: &Class) -> (chars: Result<&String, Error>)
        ensures
            match chars {
                Ok(chars) => self.chars_of(dir, class@) == Some(chars@),
                Err(Error::MissingClass { dir: side, class: name }) => self.chars_of(dir, class@)
                    is None && side == dir && name@ == class@,
            },
    {
        let table = self.class_table(dir);
        let mut i = table.len();
        proof {
            assert(table@.take(i as int) =~= table@);
        }
        while i > 0
            invariant
                i <= table@.len(),
                table@ == self.spec_class_table(dir),
                class_chars(table@, class@) == class_chars(table@.take(i as int), class@),
            decreases i,
        {
            i -= 1;
            proof {
                assert(table@.take(i + 1).drop_last() =~= table@.take(i as int));
                assert(table@.take(i + 1).last() == table@[i as int]);
            }
            if table[i].0 == *class {
                return Ok(&table[i].1);
            }
        }
        Err(Error::MissingClass { dir, class: class.clone() })
    }

    /// Compiles this specification into a full kerning pairs map.
    ///
    /// # Errors
    ///
    /// Fails if a kerning pair in the spec refers to a missing class: with the left class of
    /// the first such pair, or else with its right class.
    pub fn into_map(self, default_spacing: Length) -> (result: Result<KerningMap, Error>)
        ensures
            match result {
                Ok(map) => {
                    &&& self.first_fault(self.pairs@.len() as int) is None
                    &&& map.tables() == self.compiled(self.pairs@.len() as int)
                    &&& map.spec_default_spacing() == default_spacing
                },
                Err(Error::MissingClass { dir, class }) => self.first_fault(
                    self.pairs@.len() as int,
                ) == Some((dir, class@)),
            },
    {
        let mut kerning_pairs: Subtable<Subtable<Length>> = Subtable::new();
        let mut i: usize = 0;
        proof {
            assert(tables_of(kerning_pairs@) =~= self.compiled(0));
        }
        while i < self.pairs.len()
            invariant
                i <= self.pairs@.len(),
                self.first_fault(i as int) is None,
                tables_of(kerning_pairs@) == self.compiled(i as int),
            decreases self.pairs@.len() - i,
        {
            let length = self.pairs[i].1;
            let lefts = match self.class(Direction::Left, &self.pairs[i].0.0) {
                Ok(chars) => chars,
                Err(error) => {
                    proof {
                        lemma_fault_stays(&self, i as int + 1, self.pairs@.len() as int);
                    }
                    return Err(error);
                },
            };
            let rights = match self.class(Direction::Right, &self.pairs[i].0.1) {
                Ok(chars) => chars,
                Err(error) => {
                    proof {
                        lemma_fault_stays(&self, i as int + 1, self.pairs@.len() as int);
                    }
                    return Err(error);
                },
            };
            let ghost before = self.compiled(i as int);
            proof {
                assert(lefts@.take(0) =~= Seq::<char>::empty());
                assert(kerned_by(before, lefts@.take(0), rights@, length) =~= before);
            }
            for l in it: lefts.as_str().chars()
                invariant
                    it.seq() == lefts@,
                    tables_of(kerning_pairs@) == kerned_by(
                        before,
                        lefts@.take(it.index() as int),
                        rights@,
                        length,
                    ),
            {
                let ghost j = it.index() as int;
                let ghost tables = tables_of(kerning_pairs@);
                let mut lmap = match kerning_pairs.remove(l) {
                    Some(lmap) => lmap,
                    None => Subtable::new(),
                };
                let ghost base = lmap@;
                proof {
                    assert(base == rights_of(tables, l));
                    assert(rights@.take(0) =~= Seq::<char>::empty());
                    assert(extended(base, rights@.take(0), length) =~= base);
                }
                for r in it2: rights.as_str().chars()
                    invariant
                        it2.seq() == rights@,
                        lmap@ == extended(base, rights@.take(it2.index() as int), length),
                {
                    let ghost k = it2.index() as int;
                    lmap.insert(r, length);
                    proof {
                        lemma_take_next(rights@, k);
                        assert(lmap@ =~= extended(base, rights@.take(k + 1), length));
                    }
                }
                proof {
                    assert(rights@.take(rights@.len() as int) =~= rights@);
                    assert(lmap@ == extended(base, rights@, length));
                    assert(lefts@.take(j + 1) =~= lefts@.take(j).push(l));
                    lemma_kerned_by_next(before, lefts@.take(j), rights@, length, l);
                }
                kerning_pairs.insert(l, lmap);
                proof {
                    assert(tables_of(kerning_pairs@) =~= tables.insert(l, lmap@));
                }
            }
            proof {
                assert(lefts@.take(lefts@.len() as int) =~= lefts@);
            }
            i += 1;
        }
        Ok(KerningMap { pairs: kerning_pairs, default_spacing })
    }
}

/// The kerning tables that `pairs` holds.
pub open spec fn tables_of(pairs: Map<char, Subtable<Length>>) -> Map<char, Map<char, Length>> {
    Map::new(|l: char| pairs.contains_key(l), |l: char| pairs[l]@)
}

impl Spec {
    /// Whether pair `i` speaks of the spacing between `l` and `r`: whether `l` is in its left
    /// class and `r` in its right class.
    pub open spec fn covers(&self, i: int, l: char, r: char) -> bool {
        self.lefts(i)->0.contains(l) && self.rights(i)->0.contains(r)
    }

    /// The spacing between two characters is that of the last pair that speaks of them.
    pub proof fn lemma_spacing_of_last_pair(&self, n: int, i: int, l: char, r: char)
        requires
            0 <= i < n,
            self.covers(i, l, r),
            forall|j: int| i < j < n ==> !self.covers(j, l, r),
        ensures
            self.compiled(n).contains_key(l),
            self.compiled(n)[l].contains_key(r),
            self.compiled(n)[l][r] == self.pairs@[i].1,
        decreases n,
    {
        if i < n - 1 {
            self.lemma_spacing_of_last_pair(n - 1, i, l, r);
            assert(!self.covers(n - 1, l, r));
        }
    }

    /// The kerning tables hold no spacing between two characters of which no pair speaks.
    pub proof fn lemma_spacing_needs_a_pair(&self, n: int, l: char, r: char)
        requires
            forall|j: int| 0 <= j < n ==> !self.covers(j, l, r),
        ensures
            !(self.compiled(n).contains_key(l) && self.compiled(n)[l].contains_key(r)),
        decreases n,
    {
        if n > 0 {
            self.lemma_spacing_needs_a_pair(n - 1, l, r);
            assert(!self.covers(n - 1, l, r));
        }
    }
}

/// A fault among the first pairs is the first fault among all pairs.
proof fn lemma_fault_stays(spec: &Spec, n: int, m: int)
    requires
        0 <= n <= m,
        spec.first_fault(n) is Some,
    ensures
        spec.first_fault(m) == spec.first_fault(n),
    decreases m - n,
{
    if n < m {
        lemma_fault_stays(spec, n, m - 1);
    }
}

/// Kerning one more left character writes its table and leaves the others.
proof fn lemma_kerned_by_next(
    tables: Map<char, Map<char, Length>>,
    lefts: Seq<char>,
    rights: Seq<char>,
    length: Length,
    l: char,
)
    ensures
        kerned_by(tables, lefts.push(l), rights, length) == kerned_by(
            tables,
            lefts,
            rights,
            length,
        ).insert(
            l,
            extended(rights_of(kerned_by(tables, lefts, rights, length), l), rights, length),
        ),
{
    let before = kerned_by(tables, lefts, rights, length);
    let after = kerned_by(tables, lefts.push(l), rights, length);
    assert forall|c: char| #[trigger]
        lefts.push(l).contains(c) <==> lefts.contains(c) || c == l by {
        vstd::seq_lib::lemma_seq_contains_after_push(lefts, l, c);
    }
    assert(extended(rights_of(before, l), rights, length) =~= extended(
        rights_of(tables, l),
        rights,
        length,
    ));
    assert(after =~= before.insert(l, extended(rights_of(before, l), rights, length)));
}

/// A kerning map.
///
/// This is very similar in principle to a width override table, but for spacing between
/// character pairs.
#[derive(Clone, Debug)]
pub struct KerningMap {
    /// The specified kerning pairs.
    pairs: Subtable<Subtable<Length>>,
    /// The default spacing between glyphs.
    default_spacing: Length,
}

impl KerningMap {
    /// The kerning tables: for each character that has one, the spacings between it and the
    /// characters that may follow it.
    pub closed spec fn tables(&self) -> Map<char, Map<char, Length>> {
        tables_of(self.pairs@)
    }

    /// The spacing between two characters of which the tables do not speak.
    pub closed spec fn spec_default_spacing(&self) -> Length {
        self.default_spacing
    }

    /// The spacing between `left` and `right`.
    pub open spec fn spec_spacing(&self, left: char, right: char) -> Length {
        if self.tables().contains_key(left) && self.tables()[left].contains_key(right) {
            self.tables()[left][right]
        } else {
            self.spec_default_spacing()
        }
    }

    /// Gets the spacing between `left` and `right`.
    #[must_use]
    pub fn spacing(&self, left: char, right: char) -> (spacing: Length)
        ensures
            spacing == self.spec_spacing(left, right),
    {
        match self.pairs.get(left) {
            Some(rights) => match rights.get(right) {
                Some(spacing) => *spacing,
                None => self.default_spacing,
            },
            None => self.default_spacing,
        }
    }

    /// Takes the map apart into its kerning tables and its default spacing.
    pub(crate) fn into_parts(self) -> (parts: (Subtable<Subtable<Length>>, Length))
        ensures
            tables_of(parts.0@) == self.tables(),
            parts.1 == self.spec_default_spacing(),
    {
        (self.pairs, self.default_spacing)
    }
}

} // verus!
