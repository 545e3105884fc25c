use rpg::data::gfx::{TextureData, TilesetData};
use rpg::data::map::MapData;
use rpg::direction::{CardinalDirection, Direction};
use rpg::error::Error;
use rpg::event::{Event, EventResult, GameState, InputState, PumpProcessor, RawEvent, KEYCODE_Q};
use rpg::gfx::animation::BasicCharAnimation;
use rpg::gfx::spritesheet::SpriteSheet;
use rpg::gfx::tileset::Tileset;
use rpg::gfx::{Font, Texture};
use rpg::keymap::{Action, KEYCODE_KP_ENTER};

const SCANCODE_UP: i32 = 82;
const SCANCODE_W: i32 = 26;
const SCANCODE_S: i32 = 22;
const SCANCODE_D: i32 = 7;
const SCANCODE_RETURN: i32 = 40;
const SCANCODE_ESCAPE: i32 = 41;

fn us_keymap() -> rpg::keymap::KeyMap {
    rpg::keymap::hardcoded_keymap(&vec![
        Some(SCANCODE_UP),
        Some(81),
        Some(80),
        Some(79),
        Some(SCANCODE_W),
        Some(SCANCODE_S),
        Some(4),
        Some(SCANCODE_D),
        Some(SCANCODE_RETURN),
        Some(SCANCODE_ESCAPE),
    ])
    .unwrap()
}

use rpg::point::Point;
use rpg::resources::{CachedResources, Loader};
use rpg::scene::main_menu::{MainMenu, MenuOption};
use rpg::scene::map::MapScene;
use rpg::scene::{Scene, SceneFrame, SceneStack};

struct FixedLoader {
    decodes: usize,
}

impl Loader for FixedLoader {
    fn decode_texture(&mut self, _id: usize, path: &str) -> Result<(u32, u32), Error> {
        if path.contains("missing") {
            return Err(Error::simple("missing"));
        }
        self.decodes += 1;
        Ok((128, 128))
    }

    fn decode_font(&mut self, _id: usize, _path: &str, _size: u16) -> Result<(), Error> {
        Ok(())
    }
}

fn map_data(tileset_path: &str) -> MapData {
    MapData {
        tileset: TilesetData::Inline {
            texture: TextureData::Inline { path: tileset_path.to_string() },
            width: 16,
            height: 16,
        },
        character: TextureData::Inline { path: "hero.png".to_string() },
        tiles: vec![vec![vec![0, 1], vec![2, 3]]],
    }
}

fn state() -> GameState<FixedLoader> {
    GameState::new(CachedResources::new(), FixedLoader { decodes: 0 })
}

fn menu(tileset_path: &str) -> Scene {
    Scene::MainMenu(MainMenu::new(Font { id: 0, size: 12 }, map_data(tileset_path)))
}

fn map_scene() -> Scene {
    let texture = Texture { id: 9, width: 64, height: 64 };
    Scene::MapScene(MapScene::new(
        BasicCharAnimation::new(SpriteSheet::new(texture, 16, 16)),
        Tileset::new(SpriteSheet::new(texture, 16, 16)),
        vec![vec![vec![1]]],
    ))
}

fn select() -> Event {
    Event::ActionDown { action: Action::Select }
}

#[test]
fn selecting_start_pushes_the_map_scene() {
    let mut state = state();
    let mut stack = SceneStack::new(menu("tiles.png"));
    assert!(matches!(stack.draw(Point::new(16, 64)), Ok(SceneFrame::Menu { .. })));
    stack.process_event(&mut state, &select()).unwrap();
    assert_eq!(stack.len(), 2);
    assert!(matches!(stack.active_scene(), Scene::MapScene(_)));
    match stack.draw(Point::new(16, 64)) {
        Ok(SceneFrame::Tiles(frame)) => {
            assert_eq!(frame.layers.len(), 1);
            assert_eq!(frame.layers[0][1][0].dst.y, 16);
        },
        _ => panic!("the map scene should draw"),
    }
    assert_eq!(state.loader.decodes, 2);
}

#[test]
fn failed_start_leaves_the_stack_alone() {
    let mut state = state();
    let mut stack = SceneStack::new(menu("missing.png"));
    assert!(stack.process_event(&mut state, &select()).is_err());
    assert_eq!(stack.len(), 1);
    assert!(matches!(stack.active_scene(), Scene::MainMenu(_)));
}

#[test]
fn pushes_and_pops_balance() {
    let mut state = state();
    let mut stack = SceneStack::new(menu("tiles.png"));
    for _ in 0..3 {
        stack.process(&mut state, Some(EventResult::PushScene(map_scene())));
    }
    assert_eq!(stack.len(), 4);
    for _ in 0..3 {
        stack.process(&mut state, Some(EventResult::PopScene));
    }
    assert_eq!(stack.len(), 1);
    assert!(matches!(stack.active_scene(), Scene::MainMenu(_)));
    assert!(state.running);
}

#[test]
fn popping_the_last_scene_stops_the_game() {
    let mut state = state();
    let mut stack = SceneStack::new(menu("tiles.png"));
    stack.process(&mut state, Some(EventResult::PopScene));
    assert_eq!(stack.len(), 1);
    assert!(!state.running);
}

#[test]
fn back_on_the_map_returns_to_the_menu() {
    let mut state = state();
    let mut stack = SceneStack::new(menu("tiles.png"));
    stack.process_event(&mut state, &select()).unwrap();
    stack.process_event(&mut state, &Event::ActionDown { action: Action::Back }).unwrap();
    assert_eq!(stack.len(), 1);
    assert!(matches!(stack.active_scene(), Scene::MainMenu(_)));
}

#[test]
fn menu_selection_wraps_round() {
    let mut state = state();
    let mut menu = MainMenu::new(Font { id: 0, size: 12 }, map_data("tiles.png"));
    assert_eq!(menu.selected_option(), MenuOption::START);
    menu.process_event(&mut state, &Event::ActionDown { action: Action::Up }).unwrap();
    assert_eq!(menu.selected_option(), MenuOption::QUIT);
    menu.process_event(&mut state, &Event::ActionDown { action: Action::Down }).unwrap();
    menu.process_event(&mut state, &Event::ActionDown { action: Action::Down }).unwrap();
    assert_eq!(menu.selected_option(), MenuOption::SETTINGS);
    let labels = menu.draw();
    assert_eq!(labels.len(), 3);
    assert_eq!(labels[0].text, "Start!");
    assert!(labels[1].highlighted);
    assert_eq!((labels[2].x, labels[2].y), (300, 400));
    assert_eq!(MenuOption::QUIT.text(), "Quit");
}

#[test]
fn selecting_quit_stops_the_game() {
    let mut state = state();
    let mut menu = MainMenu::new(Font { id: 0, size: 12 }, map_data("tiles.png"));
    menu.process_event(&mut state, &Event::ActionDown { action: Action::Up }).unwrap();
    let result = menu.process_event(&mut state, &select()).unwrap();
    assert!(result.is_none());
    assert!(!state.running);
}

#[test]
fn quit_event_or_q_stops_the_game() {
    let mut state = state();
    let mut stack = SceneStack::new(menu("tiles.png"));
    stack.process_event(&mut state, &Event::Platform(RawEvent::Other)).unwrap();
    assert!(state.running);
    stack
        .process_event(&mut state, &Event::Platform(RawEvent::KeyDown { scancode: Some(20), keycode: Some(KEYCODE_Q) }))
        .unwrap();
    assert!(!state.running);
    let mut state = self::state();
    stack.process_event(&mut state, &Event::Platform(RawEvent::Quit)).unwrap();
    assert!(!state.running);
}

#[test]
fn walking_turns_and_animates_the_character() {
    let key_map = us_keymap();
    let mut scene = match map_scene() {
        Scene::MapScene(m) => m,
        _ => unreachable!(),
    };
    scene.batch_end(100, &InputState::new(vec![SCANCODE_W, SCANCODE_D], &key_map));
    assert_eq!(scene.moving(), Some(Direction::RightUp));
    scene.batch_end(100, &InputState::new(vec![SCANCODE_W, SCANCODE_S], &key_map));
    assert_eq!(scene.moving(), None);
    scene.batch_end(100, &InputState::new(vec![SCANCODE_S], &key_map));
    assert_eq!(scene.moving(), Some(Direction::Down));
    let frame = scene.draw(Point::new(40, 40)).unwrap();
    assert_eq!(frame.character.src.y, 0);
    scene.batch_end(300, &InputState::new(vec![SCANCODE_W], &key_map));
    let frame = scene.draw(Point::new(40, 40)).unwrap();
    assert_eq!(frame.character.src.y, 48);
    assert_eq!(frame.character.src.x, 32);
    let _ = CardinalDirection::Up;
}

#[test]
fn map_with_unknown_tile_does_not_draw() {
    let texture = Texture { id: 9, width: 32, height: 32 };
    let scene = MapScene::new(
        BasicCharAnimation::new(SpriteSheet::new(texture, 16, 16)),
        Tileset::new(SpriteSheet::new(texture, 16, 16)),
        vec![vec![vec![99]]],
    );
    assert!(scene.draw(Point::new(40, 40)).is_err());
}

#[test]
fn one_frame_of_input_reaches_the_active_scene() {
    let mut state = state();
    let mut stack = SceneStack::new(menu("tiles.png"));
    let pump = PumpProcessor::new(us_keymap());
    let events = vec![
        RawEvent::KeyDown { scancode: Some(SCANCODE_RETURN), keycode: None },
        RawEvent::KeyUp { scancode: Some(SCANCODE_RETURN), keycode: None },
    ];
    pump.process_events(&mut state, &mut stack, vec![], &events, vec![SCANCODE_D]).unwrap();
    assert_eq!(stack.len(), 2);
    match stack.active_scene() {
        Scene::MapScene(m) => assert_eq!(m.moving(), Some(Direction::Right)),
        _ => panic!("the map scene should be active"),
    }
}

#[test]
fn keypad_enter_selects_as_a_raw_key() {
    let mut state = state();
    let mut stack = SceneStack::new(menu("tiles.png"));
    let kp_enter = Event::Platform(RawEvent::KeyDown { scancode: Some(88), keycode: Some(KEYCODE_KP_ENTER) });
    stack.process_event(&mut state, &kp_enter).unwrap();
    assert_eq!(stack.len(), 2);
    let key_map = us_keymap();
    assert_eq!(
        rpg::event::translate(&key_map, RawEvent::KeyDown { scancode: Some(88), keycode: Some(KEYCODE_KP_ENTER) }),
        kp_enter
    );
}

#[test]
fn settings_select_does_nothing() {
    let mut state = state();
    let mut menu = MainMenu::new(Font { id: 0, size: 12 }, map_data("tiles.png"));
    menu.process_event(&mut state, &Event::ActionDown { action: Action::Down }).unwrap();
    assert!(menu.process_event(&mut state, &select()).unwrap().is_none());
    assert!(state.running);
    assert_eq!(state.loader.decodes, 0);
}
