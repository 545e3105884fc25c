use vstd::prelude::*;

use crate::error::Error;
use crate::gfx::{Rect, Texture, TextureRect};

verus! {

/// An image cut into a regular grid of equal sprites; pixels left over at the
/// right and bottom edges belong to no sprite.
#[derive(Debug, Clone, Copy)]
pub struct SpriteSheet {
    sheet: Texture,
    sprite_width: u32,
    sprite_height: u32,
    sheet_width: u32,
    sheet_height: u32,
}

impl SpriteSheet {
    pub closed spec fn spec_sheet(&self) -> Texture {
        self.sheet
    }

    pub closed spec fn spec_sprite_width(&self) -> u32 {
        self.sprite_width
    }

    pub closed spec fn spec_sprite_height(&self) -> u32 {
        self.sprite_height
    }

    /// Number of whole sprite columns.
    pub open spec fn spec_sheet_width(&self) -> u32 {
        (self.spec_sheet().width / self.spec_sprite_width()) as u32
    }

    /// Number of whole sprite rows.
    pub open spec fn spec_sheet_height(&self) -> u32 {
        (self.spec_sheet().height / self.spec_sprite_height()) as u32
    }

    pub closed spec fn counts_match(&self) -> bool {
        &&& self.sheet_width == self.sheet.width / self.sprite_width
        &&& self.sheet_height == self.sheet.height / self.sprite_height
    }

    /// Sprites are not empty, and pixel positions on the sheet fit an `i32`.
    pub open spec fn wf(&self) -> bool {
        &&& self.counts_match()
        &&& self.spec_sprite_width() > 0
        &&& self.spec_sprite_height() > 0
        &&& self.spec_sheet().width <= i32::MAX
        &&& self.spec_sheet().height <= i32::MAX
    }

    /// Cuts `sheet` into sprites of `sprite_width` by `sprite_height` pixels.
    pub fn new(sheet: Texture, sprite_width: u32, sprite_height: u32) -> (r: Self)
        requires
            sprite_width > 0,
            sprite_height > 0,
            sheet.width <= i32::MAX,
            sheet.height <= i32::MAX,
        ensures
            r.wf(),
            r.spec_sheet() == sheet,
            r.spec_sprite_width() == sprite_width,
            r.spec_sprite_height() == sprite_height,
    {
        let sheet_width = sheet.width / sprite_width;
        let sheet_height = sheet.height / sprite_height;
        SpriteSheet { sheet, sprite_width, sprite_height, sheet_width, sheet_height }
    }

    /// The sprite in column `x` and row `y`; a cell outside the grid is refused.
    pub fn get_sprite(&self, x: u32, y: u32) -> (r: Result<TextureRect, Error>)
        requires
            self.wf(),
        ensures
            r is Err <==> (x >= self.spec_sheet_width() || y >= self.spec_sheet_height()),
            r matches Err(e) ==> e is Simple,
            r matches Ok(t) ==> t.texture == self.spec_sheet() && t.rect == (Rect {
                x: (x * self.spec_sprite_width()) as i32,
                y: (y * self.spec_sprite_height()) as i32,
                width: self.spec_sprite_width(),
                height: self.spec_sprite_height(),
            }),
    {
        if x >= self.sheet_width {
            Err(Error::simple("sprite column outside the sheet"))
        } else if y >= self.sheet_height {
            Err(Error::simple("sprite row outside the sheet"))
        } else {
            proof {
                assert(x * self.sprite_width <= self.sheet_width * self.sprite_width) by (nonlinear_arith)
                    requires x <= self.sheet_width;
                assert(y * self.sprite_height <= self.sheet_height * self.sprite_height) by (nonlinear_arith)
                    requires y <= self.sheet_height;
                assert(self.sheet_width * self.sprite_width <= self.sheet.width) by (nonlinear_arith)
                    requires self.sheet_width == self.sheet.width / self.sprite_width, self.sprite_width > 0;
                assert(self.sheet_height * self.sprite_height <= self.sheet.height) by (nonlinear_arith)
                    requires self.sheet_height == self.sheet.height / self.sprite_height, self.sprite_height > 0;
            }
            let px = x * self.sprite_width;
            let py = y * self.sprite_height;
            Ok(TextureRect::new(self.sheet, Rect::new(px as i32, py as i32, self.sprite_width, self.sprite_height)))
        }
    }

    pub fn sheet_width(&self) -> (r: u32)
        requires
            self.wf(),
        ensures
            r == self.spec_sheet_width(),
    {
        self.sheet_width
    }

    pub fn sheet_height(&self) -> (r: u32)
        requires
            self.wf(),
        ensures
            r == self.spec_sheet_height(),
    {
        self.sheet_height
    }

    pub fn sprite_width(&self) -> (r: u32)
        ensures
            r == self.spec_sprite_width(),
    {
        self.sprite_width
    }

    pub fn sprite_height(&self) -> (r: u32)
        ensures
            r == self.spec_sprite_height(),
    {
        self.sprite_height
    }
}

} // verus!
