use vstd::prelude::*;

use crate::direction::{ring_close, Direction};
use crate::error::Error;
use crate::event::{Event, EventResult, InputState};
use crate::gfx::animation::{BasicCharAnimation, Oriented, Ticker};
use crate::gfx::tileset::Tileset;
use crate::gfx::{DrawCopy, Rect};
use crate::keymap::Action;
use crate::point::{IntPoint, Point};

verus! {

/// A copy of one layer of tiles.
pub fn copy_layer(layer: &Vec<Vec<u32>>) -> (r: Vec<Vec<u32>>)
    ensures
        r.deep_view() == layer.deep_view(),
{
    let mut rows: Vec<Vec<u32>> = Vec::new();
    let mut y: usize = 0;
    while y < layer.len()
        invariant
            y <= layer@.len(),
            rows@.len() == y,
            forall|i: int| 0 <= i < y ==> (#[trigger] rows@[i])@ == layer@[i]@,
        decreases layer.len() - y,
    {
        let mut row: Vec<u32> = Vec::new();
        let mut x: usize = 0;
        while x < layer[y].len()
            invariant
                y < layer@.len(),
                x <= layer@[y as int]@.len(),
                row@ == layer@[y as int]@.subrange(0, x as int),
            decreases layer[y as int]@.len() - x,
        {
            row.push(layer[y][x]);
            x = x + 1;
        }
        assert(row@ == layer@[y as int]@);
        rows.push(row);
        y = y + 1;
    }
    assert(rows.deep_view() =~= layer.deep_view());
    rows
}

/// A copy of all layers of tiles.
pub fn copy_tiles(tiles: &Vec<Vec<Vec<u32>>>) -> (r: Vec<Vec<Vec<u32>>>)
    ensures
        r.deep_view() == tiles.deep_view(),
{
    let mut layers: Vec<Vec<Vec<u32>>> = Vec::new();
    let mut l: usize = 0;
    while l < tiles.len()
        invariant
            l <= tiles@.len(),
            layers@.len() == l,
            forall|i: int| 0 <= i < l ==> (#[trigger] layers@[i]).deep_view() == tiles@[i].deep_view(),
        decreases tiles.len() - l,
    {
        layers.push(copy_layer(&tiles[l]));
        l = l + 1;
    }
    assert(layers.deep_view() =~= tiles.deep_view());
    layers
}

/// A square layer of 20 by 20 tiles as rows of a vector.
pub fn to_vec(layer: &[[u32; 20]; 20]) -> (r: Vec<Vec<u32>>)
    ensures
        r@.len() == 20,
        forall|i: int| 0 <= i < 20 ==> (#[trigger] r@[i])@ == layer@[i]@,
{
    let mut rows: Vec<Vec<u32>> = Vec::new();
    let mut y: usize = 0;
    while y < 20
        invariant
            y <= 20,
            rows@.len() == y,
            forall|i: int| 0 <= i < y ==> (#[trigger] rows@[i])@ == layer@[i]@,
        decreases 20 - y,
    {
        let mut row: Vec<u32> = Vec::new();
        let mut x: usize = 0;
        while x < 20
            invariant
                y < 20,
                x <= 20,
                row@ == layer@[y as int]@.subrange(0, x as int),
            decreases 20 - x,
        {
            row.push(layer[y][x]);
            x = x + 1;
        }
        assert(row@ == layer@[y as int]@);
        rows.push(row);
        y = y + 1;
    }
    rows
}

/// The actions that walk, with their directions.
pub open spec fn walk_vector(up: bool, down: bool, left: bool, right: bool) -> (int, int) {
    (
        (if right { 1int } else { 0 }) - (if left { 1int } else { 0 }),
        (if up { 1int } else { 0 }) - (if down { 1int } else { 0 }),
    )
}

/// The copy that draws tile `value` at column `x` and row `y` of a layer.
pub open spec fn tile_copy(tileset: Tileset, value: u32, x: int, y: int) -> DrawCopy {
    let sheet = tileset.spec_sheet();
    let columns = sheet.spec_sheet_width();
    let w = sheet.spec_sprite_width();
    let h = sheet.spec_sprite_height();
    DrawCopy {
        texture: sheet.spec_sheet(),
        src: Rect {
            x: (((value % columns) as u32) * w) as i32,
            y: (((value / columns) as u32) * h) as i32,
            width: w,
            height: h,
        },
        dst: Rect { x: (x * w) as i32, y: (y * h) as i32, width: w, height: h },
    }
}

/// Whether tile `value` exists in the tileset.
pub open spec fn tile_exists(tileset: Tileset, value: u32) -> bool {
    value / tileset.spec_sheet().spec_sheet_width() < tileset.spec_sheet().spec_sheet_height()
}

/// Whether every pixel position of a layer fits an `i32`.
pub open spec fn layer_fits(tileset: Tileset, layer: Seq<Seq<u32>>) -> bool {
    &&& layer.len() * tileset.spec_sheet().spec_sprite_height() <= i32::MAX
    &&& forall|y: int| 0 <= y < layer.len()
        ==> (#[trigger] layer[y]).len() * tileset.spec_sheet().spec_sprite_width() <= i32::MAX
}

/// Whether every tile of a layer exists in the tileset.
pub open spec fn layer_tiles_exist(tileset: Tileset, layer: Seq<Seq<u32>>) -> bool {
    forall|y: int, x: int| 0 <= y < layer.len() && 0 <= x < layer[y].len()
        ==> tile_exists(tileset, #[trigger] layer[y][x])
}

/// `rows` holds, by row and column, the copies that draw `layer`.
pub open spec fn draws_layer(tileset: Tileset, layer: Seq<Seq<u32>>, rows: Seq<Vec<DrawCopy>>) -> bool {
    &&& rows.len() == layer.len()
    &&& forall|y: int| 0 <= y < layer.len() ==> {
        &&& (#[trigger] rows[y])@.len() == layer[y].len()
        &&& forall|x: int| 0 <= x < layer[y].len() ==> #[trigger] rows[y]@[x] == tile_copy(tileset, layer[y][x], x, y)
    }
}

/// What a map frame draws: each layer's tiles by row and column, then the
/// character.
pub struct MapFrame {
    pub layers: Vec<Vec<Vec<DrawCopy>>>,
    pub character: DrawCopy,
}

/// A map with a character walking on it.
pub struct MapScene {
    character: BasicCharAnimation,
    tileset: Tileset,
    tiles: Vec<Vec<Vec<u32>>>,
    sprite_x: u32,
    sprite_y: u32,
    moving: Option<Direction>,
}

impl MapScene {
    pub closed spec fn spec_character(&self) -> BasicCharAnimation {
        self.character
    }

    pub closed spec fn spec_tileset(&self) -> Tileset {
        self.tileset
    }

    pub closed spec fn spec_tiles(&self) -> Seq<Seq<Seq<u32>>> {
        self.tiles.deep_view()
    }

    /// The selected tile cell.
    pub closed spec fn spec_cursor(&self) -> (u32, u32) {
        (self.sprite_x, self.sprite_y)
    }

    /// The direction walked in the last frame, if any.
    pub closed spec fn spec_moving(&self) -> Option<Direction> {
        self.moving
    }

    pub open spec fn wf(&self) -> bool {
        &&& self.spec_tileset().spec_sheet().wf()
        &&& self.spec_character().spec_sheet().wf()
    }

    pub fn new(character: BasicCharAnimation, tileset: Tileset, tiles: Vec<Vec<Vec<u32>>>) -> (r: Self)
        ensures
            r.spec_character() == character,
            r.spec_tileset() == tileset,
            r.spec_tiles() == tiles.deep_view(),
            r.spec_cursor() == (0u32, 0u32),
            r.spec_moving() is None,
    {
        MapScene { character, tileset, tiles, sprite_x: 0, sprite_y: 0, moving: None }
    }

    /// The direction walked in the last frame, if any.
    pub fn moving(&self) -> (r: Option<Direction>)
        ensures
            r == self.spec_moving(),
    {
        self.moving
    }

    /// What an event does to the scene: Back asks for it to be popped; the
    /// arrows move the selected cell, which stays at 0 and at the largest value
    /// at the edges; nothing else changes.
    pub open spec fn event_step(self, next: MapScene, event: Event, r: Option<EventResult>) -> bool {
        &&& next.spec_character() == self.spec_character()
        &&& next.spec_tileset() == self.spec_tileset()
        &&& next.spec_tiles() == self.spec_tiles()
        &&& next.spec_moving() == self.spec_moving()
        &&& {
            let (x, y) = self.spec_cursor();
            match event {
                Event::ActionDown { action: Action::Back } => r matches Some(EventResult::PopScene)
                    && next.spec_cursor() == (x, y),
                Event::ActionDown { action: Action::Left } => r is None
                    && next.spec_cursor() == (if x > 0 { (x - 1) as u32 } else { x }, y),
                Event::ActionDown { action: Action::Right } => r is None
                    && next.spec_cursor() == (if x < u32::MAX { (x + 1) as u32 } else { x }, y),
                Event::ActionDown { action: Action::Down } => r is None
                    && next.spec_cursor() == (x, if y < u32::MAX { (y + 1) as u32 } else { y }),
                Event::ActionDown { action: Action::Up } => r is None
                    && next.spec_cursor() == (x, if y > 0 { (y - 1) as u32 } else { y }),
                _ => r is None && next.spec_cursor() == (x, y),
            }
        }
    }

    /// What the end of a batch does to the scene, with walk vector `v` (the
    /// sum of the unit steps of the walking actions held): a non-zero vector
    /// advances the animation by `ticks` and turns the character (with
    /// hysteresis); a zero vector stops it.
    pub open spec fn walk_step(self, next: MapScene, ticks: u32, v: (int, int)) -> bool {
        let before = self.spec_character();
        let after = next.spec_character();
        &&& next.spec_tileset() == self.spec_tileset()
        &&& next.spec_tiles() == self.spec_tiles()
        &&& next.spec_cursor() == self.spec_cursor()
        &&& after.spec_sheet() == before.spec_sheet()
        &&& if v == (0int, 0int) {
            &&& next.spec_moving() is None
            &&& after.spec_ticks() == 0
            &&& after.spec_facing() == before.spec_facing()
        } else {
            &&& next.spec_moving() is Some
            &&& next.spec_moving().unwrap().unit() == v
            &&& after.spec_ticks() == (if before.spec_ticks() + ticks > u32::MAX {
                u32::MAX as int
            } else {
                before.spec_ticks() + ticks
            })
            &&& after.spec_facing() == (if ring_close(
                next.spec_moving().unwrap().ordinal(),
                2 * before.spec_facing().ordinal(),
            ) {
                before.spec_facing()
            } else {
                next.spec_moving().unwrap().spec_to_cardinal()
            })
        }
    }

    /// Applies an event; see `event_step`.
    pub fn process_event(&mut self, event: &Event) -> (r: Option<EventResult>)
        ensures
            old(self).event_step(*final(self), *event, r),
    {
        match event {
            Event::ActionDown { action: Action::Back } => Some(EventResult::PopScene),
            Event::ActionDown { action: Action::Left } => {
                if self.sprite_x > 0 {
                    self.sprite_x = self.sprite_x - 1;
                }
                None
            },
            Event::ActionDown { action: Action::Right } => {
                self.sprite_x = self.sprite_x.saturating_add(1);
                None
            },
            Event::ActionDown { action: Action::Down } => {
                self.sprite_y = self.sprite_y.saturating_add(1);
                None
            },
            Event::ActionDown { action: Action::Up } => {
                if self.sprite_y > 0 {
                    self.sprite_y = self.sprite_y - 1;
                }
                None
            },
            _ => None,
        }
    }

    /// Walks the character by the walking actions held at the end of the
    /// batch; see `walk_step`.
    pub fn batch_end(&mut self, ticks: u32, input: &InputState) -> (r: Option<EventResult>)
        requires
            input.spec_key_map().wf(),
        ensures
            r is None,
            old(self).walk_step(*final(self), ticks, walk_vector(
                input.spec_pressed(Action::Up),
                input.spec_pressed(Action::Down),
                input.spec_pressed(Action::Left),
                input.spec_pressed(Action::Right),
            )),
    {
        let up = input.is_action_pressed(Action::Up);
        let down = input.is_action_pressed(Action::Down);
        let left = input.is_action_pressed(Action::Left);
        let right = input.is_action_pressed(Action::Right);
        let mut direction_point: IntPoint = Point::new(0, 0);
        if up {
            direction_point = Point::new(direction_point.x, direction_point.y + 1);
        }
        if down {
            direction_point = Point::new(direction_point.x, direction_point.y - 1);
        }
        if left {
            direction_point = Point::new(direction_point.x - 1, direction_point.y);
        }
        if right {
            direction_point = Point::new(direction_point.x + 1, direction_point.y);
        }
        match direction_point.direction() {
            Some(direction) => {
                self.character.advance(ticks);
                self.character.point_to(direction);
                self.moving = Some(direction);
            },
            None => {
                self.character.reset();
                self.moving = None;
            },
        }
        None
    }

    /// The copies that draw a layer, by row and column; fails when a tile
    /// number is past the tileset.
    pub fn print(&self, layer: &Vec<Vec<u32>>) -> (r: Result<Vec<Vec<DrawCopy>>, Error>)
        requires
            self.spec_tileset().spec_sheet().wf(),
            self.spec_tileset().spec_sheet().spec_sheet_width() > 0,
            layer_fits(self.spec_tileset(), layer.deep_view()),
        ensures
            r is Err <==> !layer_tiles_exist(self.spec_tileset(), layer.deep_view()),
            r matches Ok(rows) ==> draws_layer(self.spec_tileset(), layer.deep_view(), rows@),
    {
        let tile_width = self.tileset.tile_width();
        let tile_height = self.tileset.tile_height();
        let mut rows: Vec<Vec<DrawCopy>> = Vec::new();
        let mut y: usize = 0;
        while y < layer.len()
            invariant
                y <= layer@.len(),
                self.spec_tileset().spec_sheet().wf(),
                self.spec_tileset().spec_sheet().spec_sheet_width() > 0,
                layer_fits(self.spec_tileset(), layer.deep_view()),
                tile_width == self.spec_tileset().spec_sheet().spec_sprite_width(),
                tile_height == self.spec_tileset().spec_sheet().spec_sprite_height(),
                rows@.len() == y,
                forall|j: int, x: int| 0 <= j < y && 0 <= x < layer@[j]@.len()
                    ==> tile_exists(self.spec_tileset(), #[trigger] layer@[j]@[x]),
                forall|j: int| 0 <= j < y ==> {
                    &&& (#[trigger] rows@[j])@.len() == layer@[j]@.len()
                    &&& forall|x: int| 0 <= x < layer@[j]@.len()
                        ==> #[trigger] rows@[j]@[x] == tile_copy(self.spec_tileset(), layer@[j]@[x], x, j)
                },
            decreases layer.len() - y,
        {
            let row = &layer[y];
            assert(layer.deep_view()[y as int] == row@);
            let mut copies: Vec<DrawCopy> = Vec::new();
            let mut x: usize = 0;
            while x < row.len()
                invariant
                    x <= row@.len(),
                    y < layer@.len(),
                    row@ == layer@[y as int]@,
                    self.spec_tileset().spec_sheet().wf(),
                    self.spec_tileset().spec_sheet().spec_sheet_width() > 0,
                    row@.len() * tile_width <= i32::MAX,
                    layer@.len() * tile_height <= i32::MAX,
                    tile_width == self.spec_tileset().spec_sheet().spec_sprite_width(),
                    tile_height == self.spec_tileset().spec_sheet().spec_sprite_height(),
                    copies@.len() == x,
                    forall|i: int| 0 <= i < x ==> tile_exists(self.spec_tileset(), #[trigger] row@[i]),
                    forall|i: int| 0 <= i < x
                        ==> #[trigger] copies@[i] == tile_copy(self.spec_tileset(), row@[i], i, y as int),
                decreases row.len() - x,
            {
                let value = row[x];
                let tile = match self.tileset.get_tile(value) {
                    Ok(t) => t,
                    Err(e) => {
                        proof {
                            assert(!tile_exists(self.spec_tileset(), layer.deep_view()[y as int][x as int]));
                        }
                        return Err(e);
                    },
                };
                proof {
                    assert(x * tile_width <= row@.len() * tile_width) by (nonlinear_arith)
                        requires x < row@.len();
                    assert(y * tile_height <= layer@.len() * tile_height) by (nonlinear_arith)
                        requires y < layer@.len();
                    assert(x <= row@.len() * tile_width) by (nonlinear_arith)
                        requires x < row@.len(), tile_width > 0;
                    assert(y <= layer@.len() * tile_height) by (nonlinear_arith)
                        requires y < layer@.len(), tile_height > 0;
                }
                let dst = Rect::new((x as u32 * tile_width) as i32, (y as u32 * tile_height) as i32, tile_width, tile_height);
                copies.push(DrawCopy { texture: tile.texture(), src: tile.rect(), dst });
                x = x + 1;
            }
            rows.push(copies);
            y = y + 1;
        }
        proof {
            assert forall|j: int, x: int| 0 <= j < layer@.len() && 0 <= x < layer.deep_view()[j].len()
                implies tile_exists(self.spec_tileset(), #[trigger] layer.deep_view()[j][x]) by {
                assert(layer.deep_view()[j] == layer@[j]@);
                assert(tile_exists(self.spec_tileset(), layer@[j]@[x]));
            }
            assert forall|j: int| 0 <= j < layer@.len() implies {
                &&& (#[trigger] rows@[j])@.len() == layer.deep_view()[j].len()
                &&& forall|x: int| 0 <= x < layer.deep_view()[j].len()
                    ==> #[trigger] rows@[j]@[x] == tile_copy(self.spec_tileset(), layer.deep_view()[j][x], x, j)
            } by {
                assert(layer.deep_view()[j] == layer@[j]@);
            }
        }
        Ok(rows)
    }

    /// Whether every layer's pixel positions fit an `i32`.
    pub open spec fn layers_fit(&self) -> bool {
        forall|l: int| 0 <= l < self.spec_tiles().len() ==> layer_fits(self.spec_tileset(), #[trigger] self.spec_tiles()[l])
    }

    /// Whether the map can be drawn with the character at `position`.
    pub open spec fn drawable_at(&self, position: IntPoint) -> bool {
        &&& self.spec_tileset().spec_sheet().spec_sheet_width() > 0
        &&& self.layers_fit()
        &&& forall|l: int| 0 <= l < self.spec_tiles().len() ==> layer_tiles_exist(self.spec_tileset(), #[trigger] self.spec_tiles()[l])
        &&& self.spec_character().can_draw_at(position)
        &&& self.spec_character().frame_exists()
    }

    fn layer_fits_exec(&self, layer: &Vec<Vec<u32>>) -> (r: bool)
        requires
            self.wf(),
        ensures
            r == layer_fits(self.spec_tileset(), layer.deep_view()),
    {
        let tile_width = self.tileset.tile_width() as u64;
        let tile_height = self.tileset.tile_height() as u64;
        if layer.len() as u64 > 2147483647 {
            assert(layer.len() * tile_height > i32::MAX) by (nonlinear_arith)
                requires layer.len() > i32::MAX, tile_height >= 1;
            return false;
        }
        assert(layer.len() as u64 * tile_height <= 2147483647 * 4294967295) by (nonlinear_arith)
            requires layer.len() <= 2147483647, tile_height <= 4294967295;
        if layer.len() as u64 * tile_height > 2147483647 {
            assert(layer.len() * tile_height > i32::MAX) by (nonlinear_arith)
                requires layer.len() > i32::MAX || layer.len() * tile_height > i32::MAX, tile_height >= 1;
            return false;
        }
        let mut y: usize = 0;
        while y < layer.len()
            invariant
                y <= layer@.len(),
                tile_width == self.spec_tileset().spec_sheet().spec_sprite_width(),
                tile_width >= 1,
                tile_width <= 4294967295,
                forall|j: int| 0 <= j < y ==> (#[trigger] layer@[j])@.len() * tile_width <= i32::MAX,
            decreases layer.len() - y,
        {
            let n = layer[y].len() as u64;
            if n <= 2147483647 {
                assert(n * tile_width <= 2147483647 * 4294967295) by (nonlinear_arith)
                    requires n <= 2147483647, tile_width <= 4294967295;
            }
            if n > 2147483647 || n * tile_width > 2147483647 {
                proof {
                    assert(layer@[y as int]@.len() * tile_width > i32::MAX) by (nonlinear_arith)
                        requires n > i32::MAX || n * tile_width > i32::MAX, tile_width >= 1,
                            n == layer@[y as int]@.len();
                    assert(layer.deep_view()[y as int] == layer@[y as int]@);
                }
                return false;
            }
            y = y + 1;
        }
        proof {
            assert forall|j: int| 0 <= j < layer@.len() implies (#[trigger] layer.deep_view()[j]).len()
                * self.spec_tileset().spec_sheet().spec_sprite_width() <= i32::MAX by {
                assert(layer.deep_view()[j] == layer@[j]@);
            }
        }
        true
    }

    /// `frame` draws every layer's tiles, then the character with its bottom
    /// centre at `position`.
    pub open spec fn draws(self, position: IntPoint, frame: MapFrame) -> bool {
        &&& frame.layers@.len() == self.spec_tiles().len()
        &&& forall|l: int| 0 <= l < self.spec_tiles().len()
            ==> draws_layer(self.spec_tileset(), self.spec_tiles()[l], (#[trigger] frame.layers@[l])@)
        &&& frame.character == self.spec_character().frame_copy(position)
    }

    /// The copies that draw the map, layer by layer, and then the character
    /// with its bottom centre at `position`. Fails when the tileset has no
    /// column, a layer is too large for pixel positions, a tile number is past
    /// the tileset, or the character cannot be drawn there.
    pub fn draw(&self, position: IntPoint) -> (r: Result<MapFrame, Error>)
        requires
            self.wf(),
        ensures
            r is Ok <==> self.drawable_at(position),
            r matches Ok(frame) ==> self.draws(position, frame),
    {
        if self.tileset.sheet().sheet_width() == 0 {
            return Err(Error::simple("tileset has no column"));
        }
        let mut layers: Vec<Vec<Vec<DrawCopy>>> = Vec::new();
        let mut l: usize = 0;
        while l < self.tiles.len()
            invariant
                self.wf(),
                self.spec_tileset().spec_sheet().spec_sheet_width() > 0,
                l <= self.tiles@.len(),
                layers@.len() == l,
                forall|k: int| 0 <= k < l ==> layer_fits(self.spec_tileset(), #[trigger] self.spec_tiles()[k]),
                forall|k: int| 0 <= k < l ==> layer_tiles_exist(self.spec_tileset(), #[trigger] self.spec_tiles()[k]),
                forall|k: int| 0 <= k < l
                    ==> draws_layer(self.spec_tileset(), self.spec_tiles()[k], (#[trigger] layers@[k])@),
            decreases self.tiles.len() - l,
        {
            assert(self.spec_tiles()[l as int] == self.tiles@[l as int].deep_view());
            if !self.layer_fits_exec(&self.tiles[l]) {
                return Err(Error::simple("layer too large"));
            }
            let rows = self.print(&self.tiles[l])?;
            layers.push(rows);
            l = l + 1;
        }
        let sheet = self.character.sheet();
        if sheet.sheet_width() == 0 {
            return Err(Error::simple("character sheet has no column"));
        }
        let half = (sheet.sprite_width() / 2) as i64;
        if (position.x as i64) - half < -2147483648 || (position.y as i64) - (sheet.sprite_height() as i64) < -2147483648 {
            return Err(Error::simple("character position out of range"));
        }
        let character = self.character.draw_at(position)?;
        Ok(MapFrame { layers, character })
    }
}

} // verus!
