//! Width override specifications and tables.

use vstd::prelude::*;

use super::chars::{extended, lemma_take_next, Subtable};
use crate::font::error::Error;
use crate::metrics::length::Length;

verus! {

/// A class-based specification of width overrides.
///
/// Each override gives one width to every character of a class, and a class is a string of
/// its characters.  Where two overrides speak of the same character, the later one counts.
#[derive(Clone, Debug)]
pub struct Spec(Vec<(String, Length)>);

impl View for Spec {
    type V = Seq<(String, Length)>;

    closed spec fn view(&self) -> Seq<(String, Length)> {
        self.0@
    }
}

/// The default specification overrides nothing.
impl Default for Spec {
    fn default() -> (spec: Self)
        ensures
            spec@.len() == 0,
    {
        Spec(Vec::new())
    }
}

/// The width of the first among the first `n` of `overrides` that is wider than `grid_width`.
pub open spec fn first_oversize(overrides: Seq<(String, Length)>, grid_width: Length, n: int) -> Option<
    Length,
>
    decreases n,
{
    if n <= 0 {
        None
    } else {
        match first_oversize(overrides, grid_width, n - 1) {
            Some(width) => Some(width),
            None => if grid_width < overrides[n - 1].1 {
                Some(overrides[n - 1].1)
            } else {
                None
            },
        }
    }
}

/// The widths that the first `n` of `overrides` give to characters.
pub open spec fn widths(overrides: Seq<(String, Length)>, n: int) -> Map<char, Length>
    decreases n,
{
    if n <= 0 {
        Map::empty()
    } else {
        extended(widths(overrides, n - 1), overrides[n - 1].0@, overrides[n - 1].1)
    }
}

impl Spec {
    /// Makes a specification of the overrides `overrides`, each a class and its width.
    #[must_use]
    pub fn new(overrides: Vec<(String, Length)>) -> (spec: Self)
        ensures
            spec@ == overrides@,
    {
        Spec(overrides)
    }

    /// Gets the overrides of this specification, each a class and its width.
    #[must_use]
    pub fn overrides(&self) -> (overrides: &Vec<(String, Length)>)
        ensures
            overrides@ == self@,
    {
        &self.0
    }

    /// Expands an override spec into a full width map, given the on-grid character width.
    ///
    /// # Errors
    ///
    /// Fails if an override asks for a width larger than the on-grid character width: with the
    /// width of the first such override.
    pub fn into_map(self, grid_width: Length) -> (result: Result<WidthMap, Error>)
        ensures
            match result {
                Ok(map) => {
                    &&& first_oversize(self@, grid_width, self@.len() as int) is None
                    &&& map.overrides() == widths(self@, self@.len() as int)
                    &&& map.spec_grid_width() == grid_width
                },
                Err(Error::OverlyLargeOverride { grid_width: cell, override_width }) => {
                    &&& cell == grid_width
                    &&& first_oversize(self@, grid_width, self@.len() as int) == Some(
                        override_width,
                    )
                },
                Err(_) => false,
            },
    {
        match self.check(grid_width) {
            Ok(()) => {},
            Err(error) => {
                return Err(error);
            },
        }
        let overrides = self.expand_map();
        Ok(WidthMap { overrides, grid_width })
    }

    /// Expands the overrides in this spec.
    fn expand_map(self) -> (overrides: Subtable<Length>)
        ensures
            overrides@ == widths(self@, self@.len() as int),
    {
        let mut overrides: Subtable<Length> = Subtable::new();
        let mut i: usize = 0;
        proof {
            assert(overrides@ =~= widths(self@, 0));
        }
        while i < self.0.len()
            invariant
                i <= self@.len(),
                overrides@ == widths(self@, i as int),
            decreases self@.len() - i,
        {
            let length = self.0[i].1;
            let chars: &String = &self.0[i].0;
            let ghost class = chars@;
            let ghost base = overrides@;
            proof {
                assert(class.take(0) =~= Seq::<char>::empty());
                assert(extended(base, class.take(0), length) =~= base);
            }
            for c in it: chars.as_str().chars()
                invariant
                    it.seq() == class,
                    overrides@ == extended(base, class.take(it.index() as int), length),
            {
                let ghost k = it.index() as int;
                overrides.insert(c, length);
                proof {
                    lemma_take_next(class, k);
                    assert(overrides@ =~= extended(base, class.take(k + 1), length));
                }
            }
            proof {
                assert(class.take(class.len() as int) =~= class);
            }
            i += 1;
        }
        overrides
    }

    /// Checks that this specification is well-formed with respect to a grid.
    ///
    /// # Errors
    ///
    /// Fails if an override asks for a width larger than the on-grid character width.
    fn check(&self, grid_width: Length) -> (result: Result<(), Error>)
        ensures
            match result {
                Ok(_) => first_oversize(self@, grid_width, self@.len() as int) is None,
                Err(Error::OverlyLargeOverride { grid_width: cell, override_width }) => {
                    &&& cell == grid_width
                    &&& first_oversize(self@, grid_width, self@.len() as int) == Some(
                        override_width,
                    )
                },
                Err(_) => false,
            },
    {
        let mut i: usize = 0;
        while i < self.0.len()
            invariant
                i <= self@.len(),
                first_oversize(self@, grid_width, i as int) is None,
            decreases self@.len() - i,
        {
            let override_width = self.0[i].1;
            if grid_width < override_width {
                proof {
                    lemma_oversize_stays(self@, grid_width, i as int + 1, self@.len() as int);
                }
                return Err(Error::OverlyLargeOverride { grid_width, override_width });
            }
            i += 1;
        }
        Ok(())
    }
}

/// The width of a character is that of the last override that has the character in its class.
pub proof fn lemma_width_of_last_override(
    overrides: Seq<(String, Length)>,
    n: int,
    i: int,
    c: char,
)
    requires
        0 <= i < n,
        overrides[i].0@.contains(c),
        forall|j: int| i < j < n ==> !(#[trigger] overrides[j]).0@.contains(c),
    ensures
        widths(overrides, n).contains_key(c),
        widths(overrides, n)[c] == overrides[i].1,
    decreases n,
{
    if i < n - 1 {
        lemma_width_of_last_override(overrides, n - 1, i, c);
        assert(!overrides[n - 1].0@.contains(c));
    }
}

/// A character that is in the class of no override has no width of its own.
pub proof fn lemma_width_needs_an_override(overrides: Seq<(String, Length)>, n: int, c: char)
    requires
        forall|j: int| 0 <= j < n ==> !(#[trigger] overrides[j]).0@.contains(c),
    ensures
        !widths(overrides, n).contains_key(c),
    decreases n,
{
    if n > 0 {
        lemma_width_needs_an_override(overrides, n - 1, c);
        assert(!overrides[n - 1].0@.contains(c));
    }
}

/// Where none of the first `n` overrides is wider than the grid, no character is.
pub proof fn lemma_widths_fit_grid(
    overrides: Seq<(String, Length)>,
    grid_width: Length,
    n: int,
    c: char,
)
    requires
        first_oversize(overrides, grid_width, n) is None,
        widths(overrides, n).contains_key(c),
    ensures
        widths(overrides, n)[c] <= grid_width,
    decreases n,
{
    if n > 0 && !overrides[n - 1].0@.contains(c) {
        lemma_widths_fit_grid(overrides, grid_width, n - 1, c);
    }
}

/// An oversize among the first overrides is the first oversize among all overrides.
proof fn lemma_oversize_stays(overrides: Seq<(String, Length)>, grid_width: Length, n: int, m: int)
    requires
        0 <= n <= m,
        first_oversize(overrides, grid_width, n) is Some,
    ensures
        first_oversize(overrides, grid_width, m) == first_oversize(overrides, grid_width, n),
    decreases m - n,
{
    if n < m {
        lemma_oversize_stays(overrides, grid_width, n, m - 1);
    }
}

/// Maps characters to their widths.
#[derive(Clone, Debug)]
pub struct WidthMap {
    /// The override map.
    overrides: Subtable<Length>,
    /// The default length, being the width of each cell in the font grid.
    grid_width: Length,
}

impl WidthMap {
    /// The widths of the characters that have a width of their own.
    pub closed spec fn overrides(&self) -> Map<char, Length> {
        self.overrides@
    }

    /// The width of every other character.
    pub closed spec fn spec_grid_width(&self) -> Length {
        self.grid_width
    }

    /// The width of character `c`.
    pub open spec fn spec_get(&self, c: char) -> Length {
        if self.overrides().contains_key(c) {
            self.overrides()[c]
        } else {
            self.spec_grid_width()
        }
    }

    /// Gets the length of a character.
    #[must_use]
    pub fn get(&self, c: char) -> (width: Length)
        ensures
            width == self.spec_get(c),
    {
        match self.overrides.get(c) {
            Some(width) => *width,
            None => self.grid_width,
        }
    }

    /// Takes the map apart into its overrides and the width of the grid.
    pub(crate) fn into_parts(self) -> (parts: (Subtable<Length>, Length))
        ensures
            parts.0@ == self.overrides(),
            parts.1 == self.spec_grid_width(),
    {
        (self.overrides, self.grid_width)
    }
}

} // verus!
