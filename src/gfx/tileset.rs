use vstd::prelude::*;

use crate::error::Error;
use crate::gfx::spritesheet::SpriteSheet;
use crate::gfx::{Rect, TextureRect};

verus! {

/// Map tiles numbered row by row across a sprite sheet.
#[derive(Debug, Clone, Copy)]
pub struct Tileset {
    sheet: SpriteSheet,
}

impl Tileset {
    pub closed spec fn spec_sheet(&self) -> SpriteSheet {
        self.sheet
    }

    pub fn new(sheet: SpriteSheet) -> (r: Self)
        ensures
            r.spec_sheet() == sheet,
    {
        Tileset { sheet }
    }

    /// The tile numbered `index`: column `index % columns`, row `index / columns`.
    pub fn get_tile(&self, index: u32) -> (r: Result<TextureRect, Error>)
        requires
            self.spec_sheet().wf(),
            self.spec_sheet().spec_sheet_width() > 0,
        ensures
            ({
                let columns = self.spec_sheet().spec_sheet_width();
                let x = (index % columns) as u32;
                let y = (index / columns) as u32;
                &&& r is Err <==> y >= self.spec_sheet().spec_sheet_height()
                &&& r matches Ok(t) ==> t.texture == self.spec_sheet().spec_sheet() && t.rect == (Rect {
                    x: (x * self.spec_sheet().spec_sprite_width()) as i32,
                    y: (y * self.spec_sheet().spec_sprite_height()) as i32,
                    width: self.spec_sheet().spec_sprite_width(),
                    height: self.spec_sheet().spec_sprite_height(),
                })
            }),
    {
        let columns = self.sheet.sheet_width();
        self.sheet.get_sprite(index % columns, index / columns)
    }

    /// The sheet the tiles are cut from.
    pub fn sheet(&self) -> (r: SpriteSheet)
        ensures
            r == self.spec_sheet(),
    {
        self.sheet
    }

    pub fn tile_width(&self) -> (r: u32)
        ensures
            r == self.spec_sheet().spec_sprite_width(),
    {
        self.sheet.sprite_width()
    }

    pub fn tile_height(&self) -> (r: u32)
        ensures
            r == self.spec_sheet().spec_sprite_height(),
    {
        self.sheet.sprite_height()
    }
}

} // verus!
