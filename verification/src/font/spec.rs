//! Font specifications.

use std::hash::Hash;
use vstd::prelude::*;

verus! {

/// A font specification (ID and colour).
#[derive(Clone, Copy, PartialEq, Eq, Hash, Debug)]
pub struct Spec<F, C> {
    /// The identifier of the font.
    pub id: F,
    /// The colour key for the font.
    pub colour: C,
}

/// The default specification asks for the default font in the default colour.
impl<F: Default, C: Default> Default for Spec<F, C> {
    fn default() -> (spec: Self)
        ensures
            call_ensures(F::default, (), spec.id),
            call_ensures(C::default, (), spec.colour),
    {
        Spec { id: F::default(), colour: C::default() }
    }
}

} // verus!
