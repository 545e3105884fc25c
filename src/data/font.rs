use vstd::prelude::*;

use crate::data::{join_as_string, joined_path, Data};
use crate::error::Error;
use crate::gfx::Font;
use crate::resources::{CachedResources, Loader};

verus! {

/// A font: a file at a point size, or a named resource.
pub enum FontData {
    Inline { path: String, size: u16 },
    Ref { id: String },
}

impl FontData {
    /// This is `old` with its path resolved against `base`.
    pub open spec fn rerooted_from(self, old: FontData, base: Seq<char>) -> bool {
        match (old, self) {
            (FontData::Inline { path: p, size: s }, FontData::Inline { path: q, size: t }) =>
                q@ == joined_path(base, p@) && t == s,
            (FontData::Ref { id: a }, FontData::Ref { id: b }) => a == b,
            _ => false,
        }
    }

    /// Loads the font through the cache; named resources are not supported.
    pub fn load<L: Loader>(&self, resources: &mut CachedResources, loader: &mut L) -> (r: Result<Font, Error>)
        requires
            old(resources).wf(),
        ensures
            final(resources).wf(),
            match *self {
                FontData::Inline { path, size } => old(resources).loads_font(*final(resources), path@, size, r),
                FontData::Ref { .. } => r is Err && *final(resources) == *old(resources),
            },
    {
        match self {
            FontData::Inline { path, size } => resources.load_font(loader, path.as_str(), *size),
            FontData::Ref { id } => resources.get_font(id.as_str()),
        }
    }
}

impl Data for FontData {
    fn reroot(&mut self, base_path: &str)
        ensures
            final(self).rerooted_from(*old(self), base_path@),
    {
        match self {
            FontData::Inline { path, .. } => {
                *path = join_as_string(base_path, path.as_str());
            },
            FontData::Ref { .. } => {},
        }
    }
}

} // verus!
