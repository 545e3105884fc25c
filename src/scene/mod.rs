use vstd::prelude::*;

use crate::error::Error;
use crate::keymap::{keys_pressed, Action};
use crate::resources::CachedResources;
use crate::scene::main_menu::{is_select, spec_menu_option, start_ready, MenuOption};
use crate::scene::map::walk_vector;
use crate::event::{is_quit_event, Event, EventResult, GameState, InputState, QuitListener};
use crate::resources::Loader;
use crate::gfx::Font;
use crate::point::IntPoint;
use crate::scene::main_menu::{MainMenu, MenuLabel};
use crate::scene::map::{MapFrame, MapScene};

pub mod main_menu;
pub mod map;

verus! {

/// A screen of the game: it handles input and draws itself.
pub enum Scene {
    MainMenu(MainMenu),
    MapScene(MapScene),
}

/// What a scene draws in one frame.
pub enum SceneFrame {
    /// Menu labels, to be rendered in the font.
    Menu { font: Font, labels: Vec<MenuLabel> },
    /// Copies of map tiles and of the character.
    Tiles(MapFrame),
}

/// The walk vector of the walking actions held under a key map.
pub open spec fn held_walk(keys: Map<i32, Action>, held: Seq<i32>) -> (int, int) {
    walk_vector(
        keys_pressed(keys, held, Action::Up),
        keys_pressed(keys, held, Action::Down),
        keys_pressed(keys, held, Action::Left),
        keys_pressed(keys, held, Action::Right),
    )
}

impl Scene {
    pub open spec fn wf(&self) -> bool {
        match *self {
            Scene::MainMenu(m) => m.wf(),
            Scene::MapScene(m) => m.wf(),
        }
    }

    /// What an event does to the scene and what it asks of the stack: the
    /// menu's or the map's own step, the kind of scene kept.
    pub open spec fn event_step(self, next: Scene, event: Event, r: Result<Option<EventResult>, Error>) -> bool {
        match (self, next) {
            (Scene::MainMenu(a), Scene::MainMenu(b)) => a.event_step(b, event, r),
            (Scene::MapScene(a), Scene::MapScene(b)) => r matches Ok(req) && a.event_step(b, event, req),
            _ => false,
        }
    }

    /// What an event does to the asset store: only the menu touches it.
    pub open spec fn resources_step(
        self,
        event: Event,
        before: CachedResources,
        after: CachedResources,
        r: Result<Option<EventResult>, Error>,
    ) -> bool {
        match self {
            Scene::MainMenu(m) => m.resources_step(event, before, after, r),
            Scene::MapScene(_) => after == before,
        }
    }

    /// What the end of a batch does: a menu stays as it was, a map walks by
    /// the walk vector `v`.
    pub open spec fn end_step(self, next: Scene, ticks: u32, v: (int, int)) -> bool {
        match (self, next) {
            (Scene::MainMenu(a), Scene::MainMenu(b)) => a == b,
            (Scene::MapScene(a), Scene::MapScene(b)) => a.walk_step(b, ticks, v),
            _ => false,
        }
    }

    /// `frame` is what the scene draws; a map puts its character at `position`.
    pub open spec fn draws(self, position: IntPoint, frame: SceneFrame) -> bool {
        match (self, frame) {
            (Scene::MainMenu(m), SceneFrame::Menu { font, labels }) => font == m.spec_font() && m.draws(labels@),
            (Scene::MapScene(m), SceneFrame::Tiles(f)) => m.draws(position, f),
            _ => false,
        }
    }

    /// Start of a batch: no scene reacts to it yet.
    pub fn batch_start(&mut self, _input: &InputState) -> (r: Option<EventResult>)
        ensures
            r is None,
            *final(self) == *old(self),
    {
        None
    }

    /// One event, handed to the scene.
    pub fn process_event<L: Loader>(&mut self, state: &mut GameState<L>, event: &Event) -> (r: Result<Option<EventResult>, Error>)
        requires
            old(self).wf(),
            old(state).resources.wf(),
        ensures
            final(self).wf(),
            old(self).event_step(*final(self), *event, r),
            old(self).resources_step(*event, old(state).resources, final(state).resources, r),
            final(state).resources.wf(),
            final(state).ticks_to_process == old(state).ticks_to_process,
            final(state).running ==> old(state).running,
            final(state).running == (old(state).running && !selects_quit(*old(self), *event)),
            r is Err ==> start_may_fail(*old(self), *event, old(state).resources),
            !is_select(*event) ==> r is Ok,
            r matches Ok(Some(EventResult::PushScene(s))) ==> s.wf(),
    {
        match self {
            Scene::MainMenu(menu) => menu.process_event(state, event),
            Scene::MapScene(map) => Ok(map.process_event(event)),
        }
    }

    /// What the scene draws; a map puts its character at `position`.
    pub fn draw(&self, position: IntPoint) -> (r: Result<SceneFrame, Error>)
        requires
            self.wf(),
        ensures
            r matches Ok(frame) ==> self.draws(position, frame),
            match *self {
                Scene::MainMenu(_) => r is Ok,
                Scene::MapScene(m) => r is Ok <==> m.drawable_at(position),
            },
    {
        match self {
            Scene::MainMenu(menu) => Ok(SceneFrame::Menu { font: menu.font(), labels: menu.draw() }),
            Scene::MapScene(map) => {
                let frame = map.draw(position)?;
                Ok(SceneFrame::Tiles(frame))
            },
        }
    }

    /// End of a batch, with the keys held then.
    pub fn batch_end(&mut self, ticks: u32, input: &InputState) -> (r: Option<EventResult>)
        requires
            old(self).wf(),
            input.spec_key_map().wf(),
        ensures
            final(self).wf(),
            r is None,
            old(self).end_step(*final(self), ticks, held_walk(input.spec_key_map()@, input.spec_held())),
    {
        match self {
            Scene::MainMenu(_) => None,
            Scene::MapScene(map) => map.batch_end(ticks, input),
        }
    }
}

/// The stack that `result` leaves of `stack`: a push adds the scene on top, a
/// pop takes the top off unless it is the only scene.
pub open spec fn apply_result(stack: Seq<Scene>, result: Option<EventResult>) -> Seq<Scene> {
    match result {
        Some(EventResult::PushScene(s)) => stack.push(s),
        Some(EventResult::PopScene) => if stack.len() > 1 { stack.drop_last() } else { stack },
        None => stack,
    }
}

/// The stack that a series of results leaves, applied in order.
pub open spec fn apply_results(stack: Seq<Scene>, results: Seq<Option<EventResult>>) -> Seq<Scene>
    decreases results.len(),
{
    if results.len() == 0 {
        stack
    } else {
        apply_result(apply_results(stack, results.drop_last()), results.last())
    }
}

/// One push request for each scene, in order.
pub open spec fn pushes(scenes: Seq<Scene>) -> Seq<Option<EventResult>> {
    Seq::new(scenes.len(), |i: int| Some(EventResult::PushScene(scenes[i])))
}

/// `n` pop requests.
pub open spec fn pops(n: nat) -> Seq<Option<EventResult>> {
    Seq::new(n, |i: int| Some(EventResult::PopScene))
}

proof fn lemma_apply_pushes(stack: Seq<Scene>, scenes: Seq<Scene>)
    ensures
        apply_results(stack, pushes(scenes)) == stack + scenes,
    decreases scenes.len(),
{
    if scenes.len() == 0 {
        assert(stack + scenes =~= stack);
    } else {
        let rest = scenes.drop_last();
        assert(pushes(scenes).drop_last() =~= pushes(rest));
        lemma_apply_pushes(stack, rest);
        assert(stack + scenes =~= (stack + rest).push(scenes.last()));
    }
}

proof fn lemma_apply_concat(stack: Seq<Scene>, a: Seq<Option<EventResult>>, b: Seq<Option<EventResult>>)
    ensures
        apply_results(stack, a + b) == apply_results(apply_results(stack, a), b),
    decreases b.len(),
{
    if b.len() == 0 {
        assert(a + b =~= a);
    } else {
        assert((a + b).drop_last() =~= a + b.drop_last());
        lemma_apply_concat(stack, a, b.drop_last());
    }
}

proof fn lemma_apply_pops(stack: Seq<Scene>, scenes: Seq<Scene>, n: nat)
    requires
        stack.len() >= 1,
        n <= scenes.len(),
    ensures
        apply_results(stack + scenes, pops(n)) == stack + scenes.subrange(0, scenes.len() - n),
    decreases n,
{
    if n == 0 {
        assert(scenes.subrange(0, scenes.len() as int) =~= scenes);
    } else {
        assert(pops(n).drop_last() =~= pops((n - 1) as nat));
        lemma_apply_pops(stack, scenes, (n - 1) as nat);
        let mid = stack + scenes.subrange(0, scenes.len() - (n - 1));
        assert(mid.drop_last() =~= stack + scenes.subrange(0, scenes.len() - n));
    }
}

/// Scene stack balance: after pushing any scenes onto a non-empty stack and
/// popping as many times, the stack is as it was, so the same scene is
/// active; and no result ever leaves the stack empty.
pub proof fn lemma_stack_balance(stack: Seq<Scene>, scenes: Seq<Scene>, result: Option<EventResult>)
    requires
        stack.len() >= 1,
    ensures
        apply_results(stack, pushes(scenes) + pops(scenes.len())) == stack,
        apply_result(stack, result).len() >= 1,
{
    lemma_apply_concat(stack, pushes(scenes), pops(scenes.len()));
    lemma_apply_pushes(stack, scenes);
    lemma_apply_pops(stack, scenes, scenes.len());
    assert(stack + scenes.subrange(0, 0) =~= stack);
}

/// Whether `event` selects the Quit entry of a menu scene.
pub open spec fn selects_quit(top: Scene, event: Event) -> bool {
    top matches Scene::MainMenu(m) && is_select(event) && spec_menu_option(m.spec_selected()) == MenuOption::QUIT
}

/// Whether `event` selects the Start entry of a menu scene whose map images
/// are not all cached and ready in `resources`: the one step that loads, and
/// so the one that can fail.
pub open spec fn start_may_fail(top: Scene, event: Event, resources: CachedResources) -> bool {
    &&& top matches Scene::MainMenu(m)
    &&& is_select(event)
    &&& spec_menu_option(m.spec_selected()) == MenuOption::START
    &&& !start_ready(m.spec_map_data(), resources.texture_map())
}

/// One event's effect on the stack, the store and the running flag: the
/// active scene takes its own step, and the request it made is applied; the
/// game stops on a quit event, on the menu's Quit, and on a pop of the only
/// scene.
pub open spec fn stack_event_step(
    old: Seq<Scene>,
    before: CachedResources,
    running_before: bool,
    event: Event,
    new: Seq<Scene>,
    after: CachedResources,
    running_after: bool,
) -> bool {
    exists|top: Scene, req: Option<EventResult>| {
        &&& #[trigger] old.last().event_step(top, event, Ok(req))
        &&& old.last().resources_step(event, before, after, Ok(req))
        &&& new == apply_result(old.drop_last().push(top), req)
        &&& running_after == (running_before && !is_quit_event(event) && !selects_quit(old.last(), event)
            && !((req matches Some(EventResult::PopScene)) && old.len() == 1))
    }
}

/// The end of a batch: the active scene takes its end step with walk vector
/// `v`; the scenes below stay as they were.
pub open spec fn stack_end_step(old: Seq<Scene>, ticks: u32, v: (int, int), new: Seq<Scene>) -> bool {
    &&& new.len() == old.len()
    &&& new.drop_last() == old.drop_last()
    &&& old.last().end_step(new.last(), ticks, v)
}

/// The stack, store and running flag that a series of events leads to, each
/// event taken in order as a `stack_event_step`.
pub open spec fn events_reach(
    old: Seq<Scene>,
    before: CachedResources,
    running_before: bool,
    events: Seq<Event>,
    new: Seq<Scene>,
    after: CachedResources,
    running_after: bool,
) -> bool
    decreases events.len(),
{
    if events.len() == 0 {
        new == old && after == before && running_after == running_before
    } else {
        exists|mid: Seq<Scene>, between: CachedResources, running: bool| {
            &&& events_reach(old, before, running_before, events.drop_last(), mid, between, running)
            &&& #[trigger] stack_event_step(mid, between, running, events.last(), new, after, running_after)
        }
    }
}

pub(crate) proof fn lemma_events_reach_push(
    old: Seq<Scene>,
    before: CachedResources,
    running_before: bool,
    events: Seq<Event>,
    mid: Seq<Scene>,
    between: CachedResources,
    running: bool,
    event: Event,
    new: Seq<Scene>,
    after: CachedResources,
    running_after: bool,
)
    requires
        events_reach(old, before, running_before, events, mid, between, running),
        stack_event_step(mid, between, running, event, new, after, running_after),
    ensures
        events_reach(old, before, running_before, events.push(event), new, after, running_after),
{
    let pushed = events.push(event);
    assert(pushed.drop_last() == events);
    assert(pushed.last() == event);
    assert(events_reach(old, before, running_before, pushed.drop_last(), mid, between, running));
    assert(stack_event_step(mid, between, running, pushed.last(), new, after, running_after));
}

/// The scenes of the game, the top one active, and the listeners that hear
/// every event whichever scene is active.
pub struct SceneStack {
    global_listeners: Vec<QuitListener>,
    stack: Vec<Scene>,
}

impl SceneStack {
    /// The scenes, bottom first.
    pub closed spec fn spec_stack(&self) -> Seq<Scene> {
        self.stack@
    }

    /// Number of global listeners.
    pub closed spec fn spec_listener_count(&self) -> nat {
        self.global_listeners@.len()
    }

    pub open spec fn wf(&self) -> bool {
        &&& self.spec_listener_count() >= 1
        &&& self.spec_stack().len() >= 1
        &&& forall|i: int| 0 <= i < self.spec_stack().len() ==> #[trigger] self.spec_stack()[i].wf()
    }

    /// A stack holding `initial` alone, with the quit listener.
    pub fn new(initial: Scene) -> (r: Self)
        ensures
            r.spec_stack() == seq![initial],
            r.spec_listener_count() == 1,
    {
        let mut global_listeners: Vec<QuitListener> = Vec::new();
        global_listeners.push(QuitListener {});
        let mut stack: Vec<Scene> = Vec::new();
        stack.push(initial);
        assert(stack@ =~= seq![initial]);
        SceneStack { global_listeners, stack }
    }

    /// Number of scenes on the stack.
    pub fn len(&self) -> (r: usize)
        ensures
            r == self.spec_stack().len(),
    {
        self.stack.len()
    }

    /// The active scene.
    pub fn active_scene(&self) -> (r: &Scene)
        requires
            self.wf(),
        ensures
            *r == self.spec_stack().last(),
    {
        &self.stack[self.stack.len() - 1]
    }

    /// Applies a scene's request. A pop of the only scene stops the game
    /// instead, so the stack never becomes empty.
    pub fn process<L>(&mut self, state: &mut GameState<L>, result: Option<EventResult>)
        requires
            old(self).wf(),
            result matches Some(EventResult::PushScene(s)) ==> s.wf(),
        ensures
            final(self).wf(),
            final(self).spec_listener_count() == old(self).spec_listener_count(),
            final(self).spec_stack() == apply_result(old(self).spec_stack(), result),
            final(state).running == (old(state).running
                && !(result matches Some(EventResult::PopScene) && old(self).spec_stack().len() == 1)),
            final(state).ticks_to_process == old(state).ticks_to_process,
            final(state).resources == old(state).resources,
            final(state).loader == old(state).loader,
    {
        match result {
            Some(EventResult::PushScene(scene)) => {
                self.stack.push(scene);
            },
            Some(EventResult::PopScene) => {
                if self.stack.len() > 1 {
                    self.stack.pop();
                } else {
                    state.running = false;
                }
            },
            None => {},
        }
    }

    /// Start of a batch, handed to the active scene.
    pub fn batch_start<L>(&mut self, state: &mut GameState<L>, input: &InputState) -> (r: Result<(), Error>)
        requires
            old(self).wf(),
        ensures
            final(self).wf(),
            r is Ok,
            final(self).spec_stack() == old(self).spec_stack(),
            *final(state) == *old(state),
    {
        let mut scene = self.stack.pop().unwrap();
        let result = scene.batch_start(input);
        self.stack.push(scene);
        assert(self.stack@ =~= old(self).stack@);
        self.process(state, result);
        Ok(())
    }

    /// One event: the global listeners hear it first, then the active scene,
    /// whose request is applied (see `stack_event_step`). On failure the stack
    /// is left as it was; only a select can fail.
    pub fn process_event<L: Loader>(&mut self, state: &mut GameState<L>, event: &Event) -> (r: Result<(), Error>)
        requires
            old(self).wf(),
            old(state).resources.wf(),
        ensures
            final(self).wf(),
            final(state).resources.wf(),
            final(state).ticks_to_process == old(state).ticks_to_process,
            final(state).running ==> old(state).running,
            is_quit_event(*event) ==> !final(state).running,
            r is Err ==> final(self).spec_stack() == old(self).spec_stack()
                && start_may_fail(old(self).spec_stack().last(), *event, old(state).resources),
            r is Ok ==> stack_event_step(old(self).spec_stack(), old(state).resources, old(state).running, *event,
                final(self).spec_stack(), final(state).resources, final(state).running),
            selects_quit(old(self).spec_stack().last(), *event) ==> !final(state).running,
            !is_select(*event) ==> r is Ok,
    {
        let mut i: usize = 0;
        while i < self.global_listeners.len()
            invariant
                self.stack@ == old(self).stack@,
                self.global_listeners@ == old(self).global_listeners@,
                self.global_listeners@.len() >= 1,
                state.resources == old(state).resources,
                state.resources.wf(),
                state.ticks_to_process == old(state).ticks_to_process,
                state.running == (old(state).running && !(i > 0 && is_quit_event(*event))),
            decreases self.global_listeners.len() - i,
        {
            let mut listener = self.global_listeners[i];
            listener.process_event(state, event);
            i = i + 1;
        }
        let mut scene = self.stack.pop().unwrap();
        let ghost rest = self.stack@;
        let ghost old_top = scene;
        assert(rest == old(self).spec_stack().drop_last());
        assert(old_top == old(self).spec_stack().last());
        match scene.process_event(state, event) {
            Ok(result) => {
                self.stack.push(scene);
                assert(self.wf());
                let ghost pushed = self.stack@;
                let ghost requested = result;
                assert(pushed == rest.push(scene));
                self.process(state, result);
                proof {
                    assert(old_top.event_step(scene, *event, Ok(requested)));
                    assert(stack_event_step(old(self).spec_stack(), old(state).resources, old(state).running, *event,
                        self.spec_stack(), state.resources, state.running));
                }
                Ok(())
            },
            Err(e) => {
                self.stack.push(scene);
                assert(self.stack@ =~= old(self).stack@);
                Err(e)
            },
        }
    }

    /// What the active scene draws; scenes below it are not drawn.
    pub fn draw(&self, position: IntPoint) -> (r: Result<SceneFrame, Error>)
        requires
            self.wf(),
        ensures
            r matches Ok(frame) ==> self.spec_stack().last().draws(position, frame),
            match self.spec_stack().last() {
                Scene::MainMenu(_) => r is Ok,
                Scene::MapScene(m) => r is Ok <==> m.drawable_at(position),
            },
    {
        let scene = self.active_scene();
        assert(scene.wf());
        scene.draw(position)
    }

    /// End of a batch, with the keys held then, handed to the active scene.
    pub fn batch_end<L>(&mut self, state: &mut GameState<L>, input: &InputState) -> (r: Result<(), Error>)
        requires
            old(self).wf(),
            input.spec_key_map().wf(),
        ensures
            final(self).wf(),
            r is Ok,
            *final(state) == *old(state),
            stack_end_step(old(self).spec_stack(), old(state).ticks_to_process,
                held_walk(input.spec_key_map()@, input.spec_held()), final(self).spec_stack()),
    {
        let mut scene = self.stack.pop().unwrap();
        let result = scene.batch_end(state.ticks_to_process, input);
        self.stack.push(scene);
        assert(self.stack@.drop_last() == old(self).stack@.drop_last());
        self.process(state, result);
        Ok(())
    }
}

} // verus!
