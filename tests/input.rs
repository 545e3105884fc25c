use rpg::event::{translate, Event, InputState, RawEvent};
use rpg::keymap::{hardcoded_keymap, Action, KeyMap};

const SCANCODE_UP: i32 = 82;
const SCANCODE_W: i32 = 26;
const SCANCODE_S: i32 = 22;
const SCANCODE_D: i32 = 7;
const SCANCODE_RETURN: i32 = 40;
const SCANCODE_ESCAPE: i32 = 41;

fn us_keymap() -> KeyMap {
    hardcoded_keymap(&vec![
        Some(SCANCODE_UP),
        Some(81),
        Some(80),
        Some(79),
        Some(SCANCODE_W),
        Some(SCANCODE_S),
        Some(4),
        Some(SCANCODE_D),
        Some(SCANCODE_RETURN),
        Some(SCANCODE_ESCAPE),
    ])
    .unwrap()
}


const KEY_W: i32 = 26;
const KEY_A: i32 = 4;

#[test]
fn action_pressed_exactly_when_its_key_is_held() {
    let key_map = KeyMap::new(vec![(KEY_W, Action::Up)]);
    assert!(InputState::new(vec![KEY_W], &key_map).is_action_pressed(Action::Up));
    assert!(InputState::new(vec![KEY_A, KEY_W], &key_map).is_action_pressed(Action::Up));
    assert!(!InputState::new(vec![KEY_A], &key_map).is_action_pressed(Action::Up));
    assert!(!InputState::new(vec![], &key_map).is_action_pressed(Action::Up));
    assert!(!InputState::new(vec![KEY_W], &key_map).is_action_pressed(Action::Down));
}

#[test]
fn later_binding_of_a_key_wins() {
    let key_map = KeyMap::new(vec![(KEY_W, Action::Up), (KEY_A, Action::Left), (KEY_W, Action::Select)]);
    assert_eq!(key_map.get_action(KEY_W), Some(Action::Select));
    assert_eq!(key_map.get_action(KEY_A), Some(Action::Left));
    assert_eq!(key_map.get_action(99), None);
    assert!(key_map.get_keys(Action::Up).is_none());
    assert_eq!(key_map.get_keys(Action::Select), Some(&vec![KEY_W]));
}

#[test]
fn several_keys_for_one_action() {
    let key_map = us_keymap();
    let mut keys = key_map.get_keys(Action::Up).unwrap().clone();
    keys.sort();
    assert_eq!(keys, vec![SCANCODE_W, SCANCODE_UP]);
    assert_eq!(key_map.get_action(88), None);
    assert_eq!(key_map.get_keys(Action::Select), Some(&vec![SCANCODE_RETURN]));
    assert_eq!(key_map.get_action(SCANCODE_RETURN), Some(Action::Select));
    assert_eq!(key_map.get_action(SCANCODE_ESCAPE), Some(Action::Back));
}

#[test]
fn bound_keys_become_actions_and_others_pass_through() {
    let key_map = us_keymap();
    assert_eq!(
        translate(&key_map, RawEvent::KeyDown { scancode: Some(SCANCODE_W), keycode: Some(119) }),
        Event::ActionDown { action: Action::Up }
    );
    assert_eq!(
        translate(&key_map, RawEvent::KeyUp { scancode: Some(SCANCODE_RETURN), keycode: None }),
        Event::ActionUp { action: Action::Select }
    );
    let unbound = RawEvent::KeyDown { scancode: Some(20), keycode: Some(113) };
    assert_eq!(translate(&key_map, unbound), Event::Platform(unbound));
    let no_scancode = RawEvent::KeyDown { scancode: None, keycode: Some(1) };
    assert_eq!(translate(&key_map, no_scancode), Event::Platform(no_scancode));
    assert_eq!(translate(&key_map, RawEvent::Quit), Event::Platform(RawEvent::Quit));
}

#[test]
fn keymap_needs_a_scancode_for_every_binding() {
    assert!(hardcoded_keymap(&vec![Some(1); 3]).is_err());
    let mut scancodes = vec![Some(1), Some(2), Some(3), Some(4), Some(5), Some(6), Some(7), Some(8), Some(9), Some(10)];
    assert!(hardcoded_keymap(&vec![Some(1); 11]).is_err());
    assert!(hardcoded_keymap(&scancodes).is_ok());
    scancodes[9] = None;
    assert!(hardcoded_keymap(&scancodes).is_err());
}
