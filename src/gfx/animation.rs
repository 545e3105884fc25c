use vstd::prelude::*;

use crate::direction::{ring_close, CardinalDirection, Direction};
use crate::error::Error;
use crate::gfx::spritesheet::SpriteSheet;
use crate::gfx::{DrawCopy, Rect};
use crate::point::IntPoint;

verus! {

/// Something that accumulates elapsed time and can start over.
pub trait Ticker {
    fn advance(&mut self, ticks: u32);

    fn reset(&mut self);
}

/// Something that can be turned towards a direction.
pub trait Oriented {
    fn point_to(&mut self, direction: Direction);
}

/// Ticks that each animation frame is shown for.
pub const FRAME_TICKS: u32 = 200;

/// The sheet row that holds the walking frames for a facing.
pub open spec fn facing_row(facing: CardinalDirection) -> u32 {
    match facing {
        CardinalDirection::Up => 3,
        CardinalDirection::Down => 0,
        CardinalDirection::Left => 1,
        CardinalDirection::Right => 2,
    }
}

/// A walking character: a sheet with one row of frames per facing, the facing
/// shown, and the ticks spent walking since the last stop.
#[derive(Debug, Clone, Copy)]
pub struct BasicCharAnimation {
    sheet: SpriteSheet,
    current_direction: CardinalDirection,
    ticks: u32,
}

impl BasicCharAnimation {
    pub closed spec fn spec_sheet(&self) -> SpriteSheet {
        self.sheet
    }

    pub closed spec fn spec_facing(&self) -> CardinalDirection {
        self.current_direction
    }

    pub closed spec fn spec_ticks(&self) -> u32 {
        self.ticks
    }

    /// A character facing down, standing still.
    pub fn new(sheet: SpriteSheet) -> (r: Self)
        ensures
            r.spec_sheet() == sheet,
            r.spec_facing() == CardinalDirection::Down,
            r.spec_ticks() == 0,
    {
        BasicCharAnimation { sheet, current_direction: CardinalDirection::Down, ticks: 0 }
    }

    /// The sheet of walking frames.
    pub fn sheet(&self) -> (r: SpriteSheet)
        ensures
            r == self.spec_sheet(),
    {
        self.sheet
    }

    /// The facing shown.
    pub fn facing(&self) -> (r: CardinalDirection)
        ensures
            r == self.spec_facing(),
    {
        self.current_direction
    }

    /// The sheet column of the frame shown.
    pub open spec fn spec_column(&self) -> u32 {
        ((self.spec_ticks() / FRAME_TICKS) % self.spec_sheet().spec_sheet_width()) as u32
    }

    /// Whether the sheet has the row of the facing shown.
    pub open spec fn frame_exists(&self) -> bool {
        facing_row(self.spec_facing()) < self.spec_sheet().spec_sheet_height()
    }

    /// Whether the frame can be drawn at `dest` with pixel positions in `i32`.
    pub open spec fn can_draw_at(&self, dest: IntPoint) -> bool {
        &&& self.spec_sheet().wf()
        &&& self.spec_sheet().spec_sheet_width() > 0
        &&& dest.x - self.spec_sheet().spec_sprite_width() / 2 >= i32::MIN
        &&& dest.y - self.spec_sheet().spec_sprite_height() >= i32::MIN
    }

    /// The copy that draws the current frame with its bottom centre at `dest`.
    pub open spec fn frame_copy(&self, dest: IntPoint) -> DrawCopy {
        let sheet = self.spec_sheet();
        let row = facing_row(self.spec_facing());
        let w = sheet.spec_sprite_width();
        let h = sheet.spec_sprite_height();
        DrawCopy {
            texture: sheet.spec_sheet(),
            src: Rect { x: (self.spec_column() * w) as i32, y: (row * h) as i32, width: w, height: h },
            dst: Rect { x: (dest.x - w / 2) as i32, y: (dest.y - h) as i32, width: w, height: h },
        }
    }

    /// The copy that draws the current frame with its bottom centre at `dest`;
    /// fails when the sheet lacks the facing's row.
    pub fn draw_at(&self, dest: IntPoint) -> (r: Result<DrawCopy, Error>)
        requires
            self.can_draw_at(dest),
        ensures
            r is Err <==> !self.frame_exists(),
            r matches Ok(c) ==> c == self.frame_copy(dest),
    {
        let sprite_x = (self.ticks / FRAME_TICKS) % self.sheet.sheet_width();
        let sprite_y: u32 = match self.current_direction {
            CardinalDirection::Up => 3,
            CardinalDirection::Down => 0,
            CardinalDirection::Left => 1,
            CardinalDirection::Right => 2,
        };
        let texture_rect = self.sheet.get_sprite(sprite_x, sprite_y)?;
        let w = texture_rect.width();
        let h = texture_rect.height();
        proof {
            assert(self.spec_sheet().spec_sheet().width <= i32::MAX);
        }
        let left = dest.x as i64 - (w / 2) as i64;
        let top = dest.y as i64 - h as i64;
        let dest_rect = Rect::new(left as i32, top as i32, w, h);
        Ok(DrawCopy { texture: texture_rect.texture(), src: texture_rect.rect(), dst: dest_rect })
    }
}

impl Ticker for BasicCharAnimation {
    /// Walks on for `ticks` more ticks (stopping at the largest count).
    fn advance(&mut self, ticks: u32)
        ensures
            final(self).spec_sheet() == old(self).spec_sheet(),
            final(self).spec_facing() == old(self).spec_facing(),
            final(self).spec_ticks() == (if old(self).spec_ticks() + ticks > u32::MAX {
                u32::MAX as int
            } else {
                old(self).spec_ticks() + ticks
            }),
    {
        self.ticks = self.ticks.saturating_add(ticks);
    }

    /// Back to the standing frame.
    fn reset(&mut self)
        ensures
            final(self).spec_sheet() == old(self).spec_sheet(),
            final(self).spec_facing() == old(self).spec_facing(),
            final(self).spec_ticks() == 0,
    {
        self.ticks = 0;
    }
}

impl Oriented for BasicCharAnimation {
    /// Turns to the facing of `direction`, unless `direction` is equal or next
    /// on the ring to the facing shown, which then stays.
    fn point_to(&mut self, direction: Direction)
        ensures
            final(self).spec_sheet() == old(self).spec_sheet(),
            final(self).spec_ticks() == old(self).spec_ticks(),
            final(self).spec_facing() == (if ring_close(direction.ordinal(), 2 * old(self).spec_facing().ordinal()) {
                old(self).spec_facing()
            } else {
                direction.spec_to_cardinal()
            }),
    {
        if !direction.is_close_to(&self.current_direction.to_direction()) {
            self.current_direction = direction.to_cardinal();
        }
    }
}

} // verus!
