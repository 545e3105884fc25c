use vstd::prelude::*;

pub use crate::data::gfx::{TextureData, TilesetData};
use crate::data::Data;

verus! {

/// A map: its tileset, the character's sprite sheet, and its tile layers
/// (layer, row, column).
pub struct MapData {
    pub tileset: TilesetData,
    pub character: TextureData,
    pub tiles: Vec<Vec<Vec<u32>>>,
}

impl MapData {
    /// This is `old` with its paths resolved against `base`.
    pub open spec fn rerooted_from(self, old: MapData, base: Seq<char>) -> bool {
        &&& self.tileset.rerooted_from(old.tileset, base)
        &&& self.character.rerooted_from(old.character, base)
        &&& self.tiles == old.tiles
    }
}

impl Data for MapData {
    fn reroot(&mut self, base_path: &str)
        ensures
            final(self).rerooted_from(*old(self), base_path@),
    {
        self.tileset.reroot(base_path);
        self.character.reroot(base_path);
    }
}

} // verus!
