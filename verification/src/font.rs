//! Fonts, their metrics, and ways of loading and referring to them.
//!
//! The main type is [`Font`], which refers to a directory filled with font files.  Of these,
//! one file holds the font's [`Metrics`]; another is its texture (a PNG).
//!
//! Consumers supply two sets of identifiers that describe a particular font and its intended
//! foreground colour.  A [`Spec`] refers to a combination of font and colour IDs.  An [`Index`]
//! stands for a font that a [`Manager`] has loaded.

pub mod error;
pub mod layout;
pub mod manager;
pub mod metrics;
pub mod spec;

use vstd::prelude::*;

pub use error::{Error, Result};
pub use manager::{Index, Loader, Manager};
pub use metrics::Metrics;
pub use spec::Spec;

use crate::resource::{MutableMap, ResourceMap};

verus! {

/// The path of the file `file` in the directory `dir`, as `Path::join` makes it.
pub uninterp spec fn joined_path(dir: Seq<char>, file: Seq<char>) -> Seq<char>;

/// Makes the path of the file `file` in the directory `dir`.
///
/// This is `Path::join`, from text to text.  The result is the path that `joined_path` names:
/// it depends on the two paths alone.
#[verifier::external_body]
fn join_path(dir: &str, file: &str) -> (joined: String)
    ensures
        joined@ == joined_path(dir@, file@),
{
    std::path::Path::new(dir).join(file).to_string_lossy().into_owned()
}

/// The name of the metrics file in a font directory.
pub const METRICS_FILE: &'static str = "metrics.ron";

/// The name of the texture file in a font directory.
pub const TEXTURE_FILE: &'static str = "font.png";

/// A font.
///
/// A font is a directory containing two items: a texture file (PNG), and a metrics file.
#[derive(Clone, Debug)]
pub struct Font {
    /// The path of the directory.
    dir: String,
}

impl Font {
    /// The path of the font's directory.
    pub closed spec fn dir(&self) -> Seq<char> {
        self.dir@
    }

    /// Creates a font that refers to the contents of a directory at `path`.
    #[must_use]
    pub fn from_dir(path: &str) -> (font: Self)
        ensures
            font.dir() == path@,
    {
        Font { dir: path.to_owned() }
    }

    /// Gets the path of the font's directory.
    #[must_use]
    pub fn directory(&self) -> (path: &str)
        ensures
            path@ == self.dir(),
    {
        self.dir.as_str()
    }

    /// Constructs the path to the font's texture (a PNG).
    ///
    /// Different backends use the texture in different ways, and it is often easier for them
    /// to load the file directly rather than take in bytes, so the font does not load the
    /// texture itself.
    #[must_use]
    pub fn texture_path(&self) -> (path: String)
        ensures
            path@ == joined_path(self.dir(), TEXTURE_FILE@),
    {
        join_path(self.dir.as_str(), TEXTURE_FILE)
    }

    /// Constructs the path to the font's metrics file.
    #[must_use]
    pub fn metrics_path(&self) -> (path: String)
        ensures
            path@ == joined_path(self.dir(), METRICS_FILE@),
    {
        join_path(self.dir.as_str(), METRICS_FILE)
    }
}

/// A reference to a font map is a font map: it loads what the map itself loads.
impl<'a, M: FontMap> FontMap for &'a M {
    type MetricsMap = M::MetricsMap;

    type IndexMap = M::IndexMap;

    fn load_metrics(&self) -> (result: Result<Self::MetricsMap>)
        ensures
            call_ensures(M::load_metrics, (*self,), result),
    {
        (**self).load_metrics()
    }
}

/// Trait for font resource maps.
pub trait FontMap: ResourceMap<Font> {
    /// The type of metrics maps produced by following this map.
    type MetricsMap: ResourceMap<Metrics, Id = Self::Id>;

    /// The type of font index maps produced by following this map.
    type IndexMap: MutableMap<Index, Id = Self::Id> + Default;

    /// Loads metrics for all fonts in the map.
    ///
    /// # Errors
    ///
    /// Fails if any of the font metrics files is missing or ill-formed.
    fn load_metrics(&self) -> Result<Self::MetricsMap>;
}

} // verus!
