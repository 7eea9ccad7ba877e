//! Trait and context for things that can be laid out.

use std::hash::Hash;
use vstd::prelude::*;

use crate::font;
use crate::metrics;
use crate::resource::ResourceMap;

verus! {

/// A layout context.
pub trait LayoutContext<FontId> where FontId: Copy + Clone + Default + Eq + Hash {
    /// The type of the map of font metrics that this context holds.
    type MetricsMap: ResourceMap<font::Metrics, Id = FontId>;

    /// Whether this context can be relied on to hand out the font metrics that
    /// [`LayoutContext::metrics`] says.  A context that does not say otherwise cannot.
    open spec fn is_reliable(&self) -> bool {
        false
    }

    /// The font metrics of this context.
    open spec fn metrics(&self) -> Self::MetricsMap {
        arbitrary()
    }

    /// Gets an immutable reference to this context's font metrics.
    fn font_metrics(&self) -> (metrics: &Self::MetricsMap)
        ensures
            self.is_reliable() ==> *metrics == self.metrics(),
    ;
}

/// Trait for things whose bounding box can be set.
pub trait Boundable {
    /// Whether this item can take `bounds` as its bounding box: whether every coordinate
    /// that follows from them can be held in a length.  An item that does not say otherwise
    /// takes every bounding box.
    open spec fn takes_bounds(&self, bounds: metrics::Rect) -> bool {
        true
    }

    /// Updates the bounding box of this item.
    /// This does not trigger a re-layout.
    fn set_bounds(&mut self, bounds: metrics::Rect)
        requires
            old(self).takes_bounds(bounds),
    ;
}

/// Trait for things that can be laid out into the space defined by a context.
///
/// Layout is decoupled from rendering, and typically happens once at the start of the view
/// creation followed by occasional follow-ups if the size of the window changes.
pub trait Layoutable<Ctx> {
    /// Whether this item can work out its minimal size in the context `ctx`.  An item that
    /// does not say otherwise can do so in every context.
    open spec fn can_measure(&self, ctx: &Ctx) -> bool {
        true
    }

    /// Whether this item can be laid out in the context `ctx`.  An item that does not say
    /// otherwise can be laid out in every context.
    open spec fn can_lay_out(&self, ctx: &Ctx) -> bool {
        true
    }

    /// Precalculate a minimal bounding box size, given the layout context.
    fn min_bounds(&self, ctx: &Ctx) -> metrics::Size
        requires
            self.can_measure(ctx),
    ;

    /// Calculates and stores a layout based on the context `ctx` and current bounding box.
    fn layout(&mut self, ctx: &Ctx)
        requires
            old(self).can_lay_out(ctx),
    ;
}

} // verus!
