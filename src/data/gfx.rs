use vstd::prelude::*;

use crate::data::{join_as_string, joined_path, Data};
use crate::error::Error;
use crate::gfx::spritesheet::SpriteSheet;
use crate::gfx::tileset::Tileset;
use crate::gfx::Texture;
use crate::resources::{CachedResources, Loader};

verus! {

/// An image: a file, or a named resource.
pub enum TextureData {
    Inline { path: String },
    Ref { id: String },
}

impl TextureData {
    /// This is `old` with its path resolved against `base`.
    pub open spec fn rerooted_from(self, old: TextureData, base: Seq<char>) -> bool {
        match (old, self) {
            (TextureData::Inline { path: p }, TextureData::Inline { path: q }) => q@ == joined_path(base, p@),
            (TextureData::Ref { id: a }, TextureData::Ref { id: b }) => a == b,
            _ => false,
        }
    }

    /// Loads the image through the cache; named resources are not supported.
    pub fn load<L: Loader>(&self, resources: &mut CachedResources, loader: &mut L) -> (r: Result<Texture, Error>)
        requires
            old(resources).wf(),
        ensures
            final(resources).wf(),
            match *self {
                TextureData::Inline { path } => old(resources).loads_texture(*final(resources), path@, r),
                TextureData::Ref { .. } => r is Err && *final(resources) == *old(resources),
            },
    {
        match self {
            TextureData::Inline { path } => resources.load_texture(loader, path.as_str()),
            TextureData::Ref { id } => resources.get_texture(id.as_str()),
        }
    }
}

impl Data for TextureData {
    fn reroot(&mut self, base_path: &str)
        ensures
            final(self).rerooted_from(*old(self), base_path@),
    {
        match self {
            TextureData::Inline { path } => {
                *path = join_as_string(base_path, path.as_str());
            },
            TextureData::Ref { .. } => {},
        }
    }
}

/// A tileset: an image cut into tiles of `width` by `height` pixels, or a
/// named resource.
pub enum TilesetData {
    Inline { texture: TextureData, width: u32, height: u32 },
    Ref { id: String },
}

/// Whether a texture can be cut into tiles of the given size.
pub open spec fn can_cut(texture: Texture, width: u32, height: u32) -> bool {
    width > 0 && height > 0 && texture.width <= i32::MAX && texture.height <= i32::MAX
}

impl TilesetData {
    /// This is `old` with its path resolved against `base`.
    pub open spec fn rerooted_from(self, old: TilesetData, base: Seq<char>) -> bool {
        match (old, self) {
            (TilesetData::Inline { texture: a, width: w1, height: h1 }, TilesetData::Inline { texture: b, width: w2, height: h2 }) =>
                b.rerooted_from(a, base) && w1 == w2 && h1 == h2,
            (TilesetData::Ref { id: a }, TilesetData::Ref { id: b }) => a == b,
            _ => false,
        }
    }

    /// Loads the image through the cache and cuts it into tiles. Named
    /// resources are not supported; an empty tile size, or an image too large
    /// for pixel positions, is refused.
    pub fn load<L: Loader>(&self, resources: &mut CachedResources, loader: &mut L) -> (r: Result<Tileset, Error>)
        requires
            old(resources).wf(),
        ensures
            final(resources).wf(),
            r matches Ok(ts) ==> ts.spec_sheet().wf(),
            match *self {
                TilesetData::Inline { texture: TextureData::Inline { path }, width, height } =>
                    exists|t: Result<Texture, Error>| {
                        &&& #[trigger] old(resources).loads_texture(*final(resources), path@, t)
                        &&& match t {
                            Ok(tex) => if can_cut(tex, width, height) {
                                r matches Ok(ts) && ts.spec_sheet().wf()
                                    && ts.spec_sheet().spec_sheet() == tex
                                    && ts.spec_sheet().spec_sprite_width() == width
                                    && ts.spec_sheet().spec_sprite_height() == height
                            } else {
                                r is Err
                            },
                            Err(_) => r is Err,
                        }
                    },
                _ => r is Err && *final(resources) == *old(resources),
            },
    {
        match self {
            TilesetData::Inline { texture, width, height } => {
                let loaded = texture.load(resources, loader);
                match loaded {
                    Ok(tex) => {
                        if *width == 0 || *height == 0 {
                            Err(Error::simple("tile size must not be empty"))
                        } else if tex.width > 2147483647 || tex.height > 2147483647 {
                            Err(Error::simple("tileset image too large"))
                        } else {
                            let sheet = SpriteSheet::new(tex, *width, *height);
                            Ok(Tileset::new(sheet))
                        }
                    },
                    Err(e) => Err(e),
                }
            },
            TilesetData::Ref { id } => resources.get_tileset(id.as_str()),
        }
    }
}

impl Data for TilesetData {
    fn reroot(&mut self, base_path: &str)
        ensures
            final(self).rerooted_from(*old(self), base_path@),
    {
        match self {
            TilesetData::Inline { texture, .. } => texture.reroot(base_path),
            TilesetData::Ref { .. } => {},
        }
    }
}

} // verus!
