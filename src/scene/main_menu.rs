use vstd::prelude::*;

use crate::data::map::MapData;
use crate::direction::CardinalDirection;
use crate::error::Error;
use crate::event::{Event, EventResult, GameState, RawEvent};
use crate::gfx::animation::BasicCharAnimation;
use crate::gfx::spritesheet::SpriteSheet;
use crate::data::gfx::{TextureData, TilesetData};
use crate::gfx::{Font, Texture};
use crate::keymap::{Action, KEYCODE_KP_ENTER};
use crate::resources::{CachedResources, Loader};
use crate::scene::map::{copy_tiles, MapScene};
use crate::scene::Scene;
use crate::utils::positive_mod;

verus! {

/// Width of one frame of the character's sprite sheet.
pub const CHARACTER_SPRITE_WIDTH: u32 = 32;

/// Height of one frame of the character's sprite sheet.
pub const CHARACTER_SPRITE_HEIGHT: u32 = 32;

/// Number of entries of the menu.
pub const MENU_LEN: i32 = 3;

/// An entry of the main menu.
#[derive(Debug, Clone, Copy, PartialEq, Eq, Structural)]
pub enum MenuOption {
    START,
    SETTINGS,
    QUIT,
}

pub open spec fn spec_menu_option(index: int) -> MenuOption {
    if index == 0 {
        MenuOption::START
    } else if index == 1 {
        MenuOption::SETTINGS
    } else {
        MenuOption::QUIT
    }
}

/// The menu entry at `index`, top to bottom.
pub fn menu_option(index: usize) -> (r: MenuOption)
    requires
        index < MENU_LEN,
    ensures
        r == spec_menu_option(index as int),
{
    if index == 0 {
        MenuOption::START
    } else if index == 1 {
        MenuOption::SETTINGS
    } else {
        MenuOption::QUIT
    }
}

/// Whether `event` selects the highlighted entry: the select action, or
/// keypad enter pressed as a raw key.
pub open spec fn is_select(event: Event) -> bool {
    match event {
        Event::ActionDown { action: Action::Select } => true,
        Event::Platform(RawEvent::KeyDown { keycode: Some(k), .. }) => k == KEYCODE_KP_ENTER,
        _ => false,
    }
}

/// Whether `event` selects the highlighted entry.
pub fn is_select_event(event: &Event) -> (r: bool)
    ensures
        r == is_select(*event),
{
    match event {
        Event::ActionDown { action: Action::Select } => true,
        Event::Platform(RawEvent::KeyDown { keycode: Some(k), .. }) => *k == KEYCODE_KP_ENTER,
        _ => false,
    }
}

/// The label of a menu entry.
pub open spec fn menu_text(option: MenuOption) -> Seq<char> {
    match option {
        MenuOption::START => "Start!"@,
        MenuOption::SETTINGS => "Settings"@,
        MenuOption::QUIT => "Quit"@,
    }
}

impl MenuOption {
    /// The label shown for the entry.
    pub fn text(&self) -> (r: &'static str)
        ensures
            r@ == menu_text(*self),
    {
        proof {
            reveal_strlit("Start!");
            reveal_strlit("Settings");
            reveal_strlit("Quit");
        }
        match self {
            MenuOption::START => "Start!",
            MenuOption::SETTINGS => "Settings",
            MenuOption::QUIT => "Quit",
        }
    }
}

/// A label to draw: its text, whether it is highlighted, and where it goes.
pub struct MenuLabel {
    pub text: &'static str,
    pub highlighted: bool,
    pub x: i32,
    pub y: i32,
}

/// The title screen: a menu whose first entry starts the map.
pub struct MainMenu {
    font: Font,
    map_data: MapData,
    selected_option: i32,
}

/// The character path, tileset path and tile size that a map's data names
/// inline; `None` when either asset is a named resource.
pub open spec fn start_assets(data: MapData) -> Option<(Seq<char>, Seq<char>, u32, u32)> {
    match (data.character, data.tileset) {
        (TextureData::Inline { path: c }, TilesetData::Inline { texture: TextureData::Inline { path: t }, width, height }) =>
            Some((c@, t@, width, height)),
        _ => None,
    }
}

/// Whether pixel positions on a texture fit an `i32`.
pub open spec fn fits_pixels(texture: Texture) -> bool {
    texture.width <= i32::MAX && texture.height <= i32::MAX
}

/// Whether the map of `data` can be built from `textures` (loaded images by
/// path) without decoding anything.
pub open spec fn start_ready(data: MapData, textures: Map<Seq<char>, Texture>) -> bool {
    &&& start_assets(data) matches Some((c, t, w, h))
    &&& textures.contains_key(c)
    &&& textures.contains_key(t)
    &&& w > 0
    &&& h > 0
    &&& fits_pixels(textures[c])
    &&& fits_pixels(textures[t])
}

/// The library's own refusals of Start, given the store before it: a named
/// resource, an empty tile size, or an image to decode with no ids left.
pub open spec fn start_refused(data: MapData, before: CachedResources, failed: bool) -> bool {
    match start_assets(data) {
        Some((c, t, w, h)) => {
            &&& (w == 0 || h == 0) ==> failed
            &&& (!before.texture_map().contains_key(c) || !before.texture_map().contains_key(t))
                && before.spec_next_id() == usize::MAX ==> failed
        },
        None => failed,
    }
}

/// The scene that a map's assets make, given the loaded images by path: the
/// character image cut into frames, the tileset image cut into tiles of the
/// data's size, and the data's tiles.
pub open spec fn is_map_scene_of(scene: MapScene, data: MapData, textures: Map<Seq<char>, Texture>) -> bool {
    &&& start_assets(data) matches Some((c, t, w, h))
    &&& textures.contains_key(c)
    &&& textures.contains_key(t)
    &&& scene.wf()
    &&& scene.spec_character().spec_sheet().spec_sheet() == textures[c]
    &&& scene.spec_character().spec_sheet().spec_sprite_width() == CHARACTER_SPRITE_WIDTH
    &&& scene.spec_character().spec_sheet().spec_sprite_height() == CHARACTER_SPRITE_HEIGHT
    &&& scene.spec_character().spec_facing() == CardinalDirection::Down
    &&& scene.spec_character().spec_ticks() == 0
    &&& scene.spec_tileset().spec_sheet().spec_sheet() == textures[t]
    &&& scene.spec_tileset().spec_sheet().spec_sprite_width() == w
    &&& scene.spec_tileset().spec_sheet().spec_sprite_height() == h
    &&& scene.spec_tiles() == data.tiles.deep_view()
    &&& scene.spec_cursor() == (0u32, 0u32)
    &&& scene.spec_moving() is None
}

impl MainMenu {
    pub closed spec fn spec_font(&self) -> Font {
        self.font
    }

    pub closed spec fn spec_map_data(&self) -> MapData {
        self.map_data
    }

    /// Index of the highlighted entry.
    pub closed spec fn spec_selected(&self) -> int {
        self.selected_option as int
    }

    pub open spec fn wf(&self) -> bool {
        0 <= self.spec_selected() < MENU_LEN
    }

    /// A menu with its first entry highlighted.
    pub fn new(font: Font, map_data: MapData) -> (r: Self)
        ensures
            r.wf(),
            r.spec_font() == font,
            r.spec_map_data() == map_data,
            r.spec_selected() == 0,
    {
        MainMenu { font, map_data, selected_option: 0 }
    }

    /// The highlighted entry.
    pub fn selected_option(&self) -> (r: MenuOption)
        requires
            self.wf(),
        ensures
            r == spec_menu_option(self.spec_selected()),
    {
        menu_option(positive_mod(self.selected_option, MENU_LEN))
    }

    /// What an event does to the menu, apart from the game state: up and
    /// down move the highlight round the menu; select (the action, or keypad
    /// enter pressed as a raw key) acts on the highlighted
    /// entry, Start asking for a map scene to be pushed (named resources are
    /// refused); a failure leaves the menu as it was.
    pub open spec fn event_step(self, next: MainMenu, event: Event, r: Result<Option<EventResult>, Error>) -> bool {
        &&& next.wf()
        &&& next.spec_font() == self.spec_font()
        &&& next.spec_map_data() == self.spec_map_data()
        &&& r is Err ==> next == self
        &&& if event == (Event::ActionDown { action: Action::Up }) {
            r matches Ok(None) && next.spec_selected() == (self.spec_selected() - 1) % (MENU_LEN as int)
        } else if event == (Event::ActionDown { action: Action::Down }) {
            r matches Ok(None) && next.spec_selected() == (self.spec_selected() + 1) % (MENU_LEN as int)
        } else if is_select(event) {
            &&& next.spec_selected() == self.spec_selected()
            &&& match spec_menu_option(self.spec_selected()) {
                MenuOption::START => {
                    &&& r matches Ok(res) ==> res matches Some(EventResult::PushScene(Scene::MapScene(m))) && m.wf()
                    &&& start_assets(self.spec_map_data()) is None ==> r is Err
                },
                _ => r matches Ok(None),
            }
        } else {
            r matches Ok(None) && next == self
        }
    }

    /// What an event does to the asset store. Start loads the character and
    /// the tileset: a pushed scene is built from the images the store then
    /// holds for their paths; Start succeeds whenever both images were
    /// already cached, fit pixel positions, and the tile size is not empty;
    /// the library's own refusals fail it. Other events leave the store alone.
    pub open spec fn resources_step(
        self,
        event: Event,
        before: CachedResources,
        after: CachedResources,
        r: Result<Option<EventResult>, Error>,
    ) -> bool {
        let data = self.spec_map_data();
        &&& after.wf()
        &&& if is_select(event) && spec_menu_option(self.spec_selected()) == MenuOption::START {
            &&& r matches Ok(Some(EventResult::PushScene(Scene::MapScene(m)))) ==> is_map_scene_of(m, data, after.texture_map())
            &&& start_ready(data, before.texture_map()) ==> (r matches Ok(Some(EventResult::PushScene(Scene::MapScene(_)))))
            &&& start_refused(data, before, r is Err)
        } else {
            after == before
        }
    }

    /// Handles an event (see `event_step` and `resources_step`). Start loads the map's character
    /// and tileset through the store and fails when a load fails; it succeeds
    /// whenever both images are already cached, fit pixel positions, and the
    /// tile size is not empty. Quit stops the game.
    pub fn process_event<L: Loader>(&mut self, state: &mut GameState<L>, event: &Event) -> (r: Result<Option<EventResult>, Error>)
        requires
            old(self).wf(),
            old(state).resources.wf(),
        ensures
            old(self).event_step(*final(self), *event, r),
            final(state).resources.wf(),
            final(state).ticks_to_process == old(state).ticks_to_process,
            final(state).running ==> old(state).running,
            old(self).resources_step(*event, old(state).resources, final(state).resources, r),
            if is_select(*event) {
                match spec_menu_option(old(self).spec_selected()) {
                    MenuOption::QUIT => !final(state).running,
                    MenuOption::START => final(state).running == old(state).running,
                    MenuOption::SETTINGS => *final(state) == *old(state),
                }
            } else {
                *final(state) == *old(state)
            },
    {
        match event {
            Event::ActionDown { action: Action::Up } => {
                let next = positive_mod(self.selected_option - 1, MENU_LEN);
                self.selected_option = next as i32;
                assert(self.selected_option as int == next as int);
                Ok(None)
            },
            Event::ActionDown { action: Action::Down } => {
                let next = positive_mod(self.selected_option + 1, MENU_LEN);
                self.selected_option = next as i32;
                assert(self.selected_option as int == next as int);
                Ok(None)
            },
            _ => {
                if !is_select_event(event) {
                    return Ok(None);
                }
                match self.selected_option() {
                    MenuOption::START => {
                        let scene = self.load_map(state)?;
                        Ok(Some(EventResult::PushScene(Scene::MapScene(scene))))
                    },
                    MenuOption::QUIT => {
                        state.running = false;
                        Ok(None)
                    },
                    MenuOption::SETTINGS => Ok(None),
                }
            },
        }
    }

    /// Loads the map's character and tileset and builds its scene.
    fn load_map<L: Loader>(&self, state: &mut GameState<L>) -> (r: Result<MapScene, Error>)
        requires
            old(state).resources.wf(),
        ensures
            final(state).resources.wf(),
            final(state).running == old(state).running,
            final(state).ticks_to_process == old(state).ticks_to_process,
            r matches Ok(m) ==> is_map_scene_of(m, self.spec_map_data(), final(state).resources.texture_map()),
            start_ready(self.spec_map_data(), old(state).resources.texture_map()) ==> r is Ok,
            start_refused(self.spec_map_data(), old(state).resources, r is Err),
    {
        let texture = self.map_data.character.load(&mut state.resources, &mut state.loader)?;
        if !(texture.width <= 2147483647 && texture.height <= 2147483647) {
            return Err(Error::simple("character image too large"));
        }
        let sheet = SpriteSheet::new(texture, CHARACTER_SPRITE_WIDTH, CHARACTER_SPRITE_HEIGHT);
        let tileset = self.map_data.tileset.load(&mut state.resources, &mut state.loader)?;
        let tiles = copy_tiles(&self.map_data.tiles);
        let scene = MapScene::new(BasicCharAnimation::new(sheet), tileset, tiles);
        Ok(scene)
    }

    /// The labels of the menu, one under the other, the selected one highlighted.
    pub open spec fn draws(self, labels: Seq<MenuLabel>) -> bool {
        &&& labels.len() == MENU_LEN
        &&& forall|i: int| 0 <= i < MENU_LEN ==> {
            &&& (#[trigger] labels[i]).highlighted == (i == self.spec_selected())
            &&& labels[i].text@ == menu_text(spec_menu_option(i))
            &&& labels[i].x == 300
            &&& labels[i].y == 300 + 50 * i
        }
    }

    /// The labels of the menu; see `draws`.
    pub fn draw(&self) -> (r: Vec<MenuLabel>)
        requires
            self.wf(),
        ensures
            self.draws(r@),
    {
        let mut labels: Vec<MenuLabel> = Vec::new();
        let mut index: usize = 0;
        while index < 3
            invariant
                index <= 3,
                self.wf(),
                labels@.len() == index,
                forall|i: int| 0 <= i < index ==> {
                    &&& (#[trigger] labels@[i]).highlighted == (i == self.spec_selected())
                    &&& labels@[i].text@ == menu_text(spec_menu_option(i))
                    &&& labels@[i].x == 300
                    &&& labels@[i].y == 300 + 50 * i
                },
            decreases 3 - index,
        {
            let option = menu_option(index);
            labels.push(MenuLabel {
                text: option.text(),
                highlighted: index as i32 == self.selected_option,
                x: 300,
                y: 300 + 50 * (index as i32),
            });
            index = index + 1;
        }
        labels
    }

    /// The font the labels are drawn in.
    pub fn font(&self) -> (r: Font)
        ensures
            r == self.spec_font(),
    {
        self.font
    }
}

} // verus!
