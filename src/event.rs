use vstd::prelude::*;

use crate::error::Error;
use crate::keymap::{keys_of, keys_pressed, Action, KeyMap};
use crate::resources::{CachedResources, Loader};
use crate::scene::main_menu::is_select;
use crate::scene::{start_may_fail, events_reach, held_walk, lemma_events_reach_push, stack_end_step, Scene, SceneStack};

verus! {

/// Keycode of the Q key, which quits.
pub const KEYCODE_Q: i32 = 113;

/// A platform input event, as far as the runtime reads it. Keys carry the
/// platform's scancode (physical key) and keycode (symbol).
#[derive(Debug, Clone, Copy, PartialEq, Eq, Structural)]
pub enum RawEvent {
    Quit,
    KeyDown { scancode: Option<i32>, keycode: Option<i32> },
    KeyUp { scancode: Option<i32>, keycode: Option<i32> },
    Other,
}

/// An event handed to listeners: a bound key press or release as an action,
/// anything else as the platform event it was.
#[derive(Debug, Clone, Copy, PartialEq, Eq, Structural)]
pub enum Event {
    Platform(RawEvent),
    ActionDown { action: Action },
    ActionUp { action: Action },
}

/// The event that `raw` becomes under `keys`.
pub open spec fn spec_translate(keys: Map<i32, Action>, raw: RawEvent) -> Event {
    match raw {
        RawEvent::KeyDown { scancode: Some(s), .. } if keys.contains_key(s) => Event::ActionDown { action: keys[s] },
        RawEvent::KeyUp { scancode: Some(s), .. } if keys.contains_key(s) => Event::ActionUp { action: keys[s] },
        _ => Event::Platform(raw),
    }
}

/// Turns a key press or release of a bound key into its action; every other
/// event passes through unchanged.
pub fn translate(key_map: &KeyMap, raw: RawEvent) -> (r: Event)
    requires
        key_map.wf(),
    ensures
        r == spec_translate(key_map@, raw),
{
    match raw {
        RawEvent::KeyDown { scancode: Some(s), .. } => match key_map.get_action(s) {
            Some(action) => Event::ActionDown { action },
            None => Event::Platform(raw),
        },
        RawEvent::KeyUp { scancode: Some(s), .. } => match key_map.get_action(s) {
            Some(action) => Event::ActionUp { action },
            None => Event::Platform(raw),
        },
        _ => Event::Platform(raw),
    }
}

/// The events that `raw` become under `keys`, in order.
pub open spec fn translate_all(keys: Map<i32, Action>, raw: Seq<RawEvent>) -> Seq<Event> {
    Seq::new(raw.len(), |i: int| spec_translate(keys, raw[i]))
}

/// A snapshot of the keys held at one moment, read through a key map.
pub struct InputState<'r> {
    held: Vec<i32>,
    key_map: &'r KeyMap,
}

impl<'r> InputState<'r> {
    /// Scancodes held.
    pub closed spec fn spec_held(&self) -> Seq<i32> {
        self.held@
    }

    pub closed spec fn spec_key_map(&self) -> KeyMap {
        *self.key_map
    }

    /// Whether some key bound to `action` is held.
    pub open spec fn spec_pressed(&self, action: Action) -> bool {
        keys_pressed(self.spec_key_map()@, self.spec_held(), action)
    }

    pub fn new(held: Vec<i32>, key_map: &'r KeyMap) -> (r: Self)
        ensures
            r.spec_held() == held@,
            r.spec_key_map() == *key_map,
    {
        InputState { held, key_map }
    }

    fn is_held(&self, key: i32) -> (r: bool)
        ensures
            r == self.spec_held().contains(key),
    {
        let mut i: usize = 0;
        while i < self.held.len()
            invariant
                i <= self.held@.len(),
                forall|j: int| 0 <= j < i ==> self.held@[j] != key,
            decreases self.held.len() - i,
        {
            if self.held[i] == key {
                assert(self.held@[i as int] == key);
                return true;
            }
            i = i + 1;
        }
        false
    }

    /// Whether any key bound to `action` is held.
    pub fn is_action_pressed(&self, action: Action) -> (r: bool)
        requires
            self.spec_key_map().wf(),
        ensures
            r == self.spec_pressed(action),
    {
        match self.key_map.get_keys(action) {
            None => false,
            Some(keys) => {
                let mut i: usize = 0;
                while i < keys.len()
                    invariant
                        i <= keys@.len(),
                        keys@.to_set() == keys_of(self.spec_key_map()@, action),
                        forall|j: int| 0 <= j < i ==> !self.spec_held().contains(#[trigger] keys@[j]),
                    decreases keys.len() - i,
                {
                    if self.is_held(keys[i]) {
                        assert(keys@.to_set().contains(keys@[i as int]));
                        return true;
                    }
                    i = i + 1;
                }
                proof {
                    assert forall|k: i32| keys_of(self.spec_key_map()@, action).contains(k)
                        implies !self.spec_held().contains(k) by {
                        assert(keys@.to_set().contains(k));
                        let j = choose|j: int| 0 <= j < keys@.len() && keys@[j] == k;
                        assert(!self.spec_held().contains(keys@[j]));
                    }
                }
                false
            },
        }
    }
}

/// What a listener asks of the scene stack.
pub enum EventResult {
    PushScene(Scene),
    PopScene,
}

/// State shared by the frame loop and every listener.
pub struct GameState<L> {
    pub running: bool,
    pub ticks_to_process: u32,
    pub resources: CachedResources,
    pub loader: L,
}

impl<L: Loader> GameState<L> {
    /// A running game, with no ticks yet to process.
    pub fn new(resources: CachedResources, loader: L) -> (r: Self)
        ensures
            r.running,
            r.ticks_to_process == 0,
            r.resources == resources,
            r.loader == loader,
    {
        GameState { running: true, ticks_to_process: 0, resources, loader }
    }
}

/// Whether `event` asks the game to quit: the window was closed, or Q pressed.
pub open spec fn is_quit_event(event: Event) -> bool {
    match event {
        Event::Platform(RawEvent::Quit) => true,
        Event::Platform(RawEvent::KeyDown { keycode: Some(k), .. }) => k == KEYCODE_Q,
        _ => false,
    }
}

/// Stops the game when the window is closed or Q is pressed.
#[derive(Debug, Clone, Copy)]
pub struct QuitListener {}

impl QuitListener {
    pub fn process_event<L: Loader>(&mut self, state: &mut GameState<L>, event: &Event)
        ensures
            final(state).running == (old(state).running && !is_quit_event(*event)),
            final(state).ticks_to_process == old(state).ticks_to_process,
            final(state).resources == old(state).resources,
            final(state).loader == old(state).loader,
    {
        match event {
            Event::Platform(RawEvent::Quit) => {
                state.running = false;
            },
            Event::Platform(RawEvent::KeyDown { keycode: Some(k), .. }) => {
                if *k == KEYCODE_Q {
                    state.running = false;
                }
            },
            _ => {},
        }
    }
}

/// Turns a frame's platform input into listener calls through a key map.
pub struct PumpProcessor {
    key_map: KeyMap,
}

impl PumpProcessor {
    pub closed spec fn spec_key_map(&self) -> KeyMap {
        self.key_map
    }

    pub fn new(key_map: KeyMap) -> (r: Self)
        ensures
            r.spec_key_map() == key_map,
    {
        PumpProcessor { key_map }
    }

    /// One frame of input: the start of the batch with the keys held before
    /// the events (`start_held`), each event in arrival order translated to its
    /// action and taken by the stack, then the end of the batch with the keys
    /// held after (`end_held`). The first failure ends the frame and is
    /// returned; only a select can fail.
    pub fn process_events<L: Loader>(
        &self,
        state: &mut GameState<L>,
        listener: &mut SceneStack,
        start_held: Vec<i32>,
        events: &Vec<RawEvent>,
        end_held: Vec<i32>,
    ) -> (r: Result<(), Error>)
        requires
            self.spec_key_map().wf(),
            old(listener).wf(),
            old(state).resources.wf(),
        ensures
            final(listener).wf(),
            final(state).resources.wf(),
            final(state).ticks_to_process == old(state).ticks_to_process,
            final(state).running ==> old(state).running,
            r is Ok ==> exists|mid: Seq<Scene>| {
                &&& #[trigger] events_reach(old(listener).spec_stack(), old(state).resources, old(state).running,
                    translate_all(self.spec_key_map()@, events@), mid, final(state).resources, final(state).running)
                &&& stack_end_step(mid, old(state).ticks_to_process,
                    held_walk(self.spec_key_map()@, end_held@), final(listener).spec_stack())
            },
            r is Err ==> exists|i: int, mid: Seq<Scene>, between: CachedResources, running: bool| {
                &&& 0 <= i < events@.len()
                &&& #[trigger] events_reach(old(listener).spec_stack(), old(state).resources, old(state).running,
                    translate_all(self.spec_key_map()@, events@).subrange(0, i), mid, between, running)
                &&& start_may_fail(mid.last(), spec_translate(self.spec_key_map()@, events@[i]), between)
            },
            (forall|i: int| 0 <= i < events@.len()
                ==> !is_select(#[trigger] spec_translate(self.spec_key_map()@, events@[i])))
                ==> r is Ok,
            r is Ok && (exists|i: int| 0 <= i < events@.len()
                && is_quit_event(#[trigger] spec_translate(self.spec_key_map()@, events@[i])))
                ==> !final(state).running,
    {
        let ghost keys = self.spec_key_map()@;
        let ghost all = translate_all(keys, events@);
        let start_state = InputState::new(start_held, &self.key_map);
        let _ = listener.batch_start(state, &start_state);
        assert(events_reach(old(listener).spec_stack(), old(state).resources, old(state).running, all.subrange(0, 0),
            listener.spec_stack(), state.resources, state.running));
        let mut i: usize = 0;
        while i < events.len()
            invariant
                self.spec_key_map().wf(),
                keys == self.spec_key_map()@,
                all == translate_all(keys, events@),
                listener.wf(),
                state.resources.wf(),
                i <= events@.len(),
                state.ticks_to_process == old(state).ticks_to_process,
                state.running ==> old(state).running,
                (exists|j: int| 0 <= j < i
                    && is_quit_event(#[trigger] spec_translate(keys, events@[j])))
                    ==> !state.running,
                events_reach(old(listener).spec_stack(), old(state).resources, old(state).running, all.subrange(0, i as int),
                    listener.spec_stack(), state.resources, state.running),
            decreases events.len() - i,
        {
            let event = translate(&self.key_map, events[i]);
            let ghost stack_before = listener.spec_stack();
            let ghost res_before = state.resources;
            let ghost running_before = state.running;
            match listener.process_event(state, &event) {
                Ok(()) => {},
                Err(e) => {
                    proof {
                        assert(events_reach(old(listener).spec_stack(), old(state).resources, old(state).running,
                            all.subrange(0, i as int), stack_before, res_before, running_before));
                        assert(start_may_fail(stack_before.last(), spec_translate(keys, events@[i as int]), res_before));
                    }
                    return Err(e);
                },
            }
            proof {
                assert(all.subrange(0, i + 1) == all.subrange(0, i as int).push(event));
                lemma_events_reach_push(old(listener).spec_stack(), old(state).resources, old(state).running,
                    all.subrange(0, i as int), stack_before, res_before, running_before, event,
                    listener.spec_stack(), state.resources, state.running);
            }
            i = i + 1;
        }
        assert(all.subrange(0, events@.len() as int) == all);
        let end_state = InputState::new(end_held, &self.key_map);
        let ghost mid = listener.spec_stack();
        let result = listener.batch_end(state, &end_state);
        assert(events_reach(old(listener).spec_stack(), old(state).resources, old(state).running, all, mid,
            state.resources, state.running));
        result
    }
}

} // verus!
