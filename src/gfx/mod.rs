use vstd::prelude::*;

use crate::error::Error;

pub mod animation;
pub mod spritesheet;
pub mod tileset;

verus! {

/// A handle to a decoded image: its identity in the resource store and its size.
///
/// Two handles with the same `id` refer to the same underlying image.
#[derive(Debug, Clone, Copy, PartialEq, Eq, Structural)]
pub struct Texture {
    pub id: usize,
    pub width: u32,
    pub height: u32,
}

impl Texture {
    pub fn height(&self) -> (r: u32)
        ensures
            r == self.height,
    {
        self.height
    }

    pub fn width(&self) -> (r: u32)
        ensures
            r == self.width,
    {
        self.width
    }
}

/// A handle to a font loaded at one point size.
#[derive(Debug, Clone, Copy, PartialEq, Eq, Structural)]
pub struct Font {
    pub id: usize,
    pub size: u16,
}

/// An axis-aligned rectangle: top-left corner and size, in pixels.
#[derive(Debug, Clone, Copy, PartialEq, Eq, Structural)]
pub struct Rect {
    pub x: i32,
    pub y: i32,
    pub width: u32,
    pub height: u32,
}

impl Rect {
    pub fn new(x: i32, y: i32, width: u32, height: u32) -> (r: Rect)
        ensures
            r == (Rect { x, y, width, height }),
    {
        Rect { x, y, width, height }
    }
}

/// A region of a texture.
#[derive(Debug, Clone, Copy, PartialEq, Eq, Structural)]
pub struct TextureRect {
    pub texture: Texture,
    pub rect: Rect,
}

impl TextureRect {
    pub open spec fn spec_texture(&self) -> Texture {
        self.texture
    }

    pub open spec fn spec_rect(&self) -> Rect {
        self.rect
    }

    pub fn new(texture: Texture, rect: Rect) -> (r: Self)
        ensures
            r.spec_texture() == texture,
            r.spec_rect() == rect,
    {
        TextureRect { texture, rect }
    }

    pub fn texture(&self) -> (r: Texture)
        ensures
            r == self.spec_texture(),
    {
        self.texture
    }

    pub fn rect(&self) -> (r: Rect)
        ensures
            r == self.spec_rect(),
    {
        self.rect
    }

    pub fn width(&self) -> (r: u32)
        ensures
            r == self.spec_rect().width,
    {
        self.rect.width
    }

    pub fn height(&self) -> (r: u32)
        ensures
            r == self.spec_rect().height,
    {
        self.rect.height
    }
}

/// One draw operation: copy the `src` region of a texture onto `dst` of the
/// current target.
#[derive(Debug, Clone, Copy, PartialEq, Eq, Structural)]
pub struct DrawCopy {
    pub texture: Texture,
    pub src: Rect,
    pub dst: Rect,
}

} // verus!
