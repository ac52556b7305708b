//! The game as a whole: the state machine, the world and the gamepad
//! settings, and the tick that runs the callbacks of the active state.

use crate::gameplay::{
    camera_follow, configure_gamepads, movement, setup, spec_camera_follow, spec_filter_axis,
    spec_grass, spec_moved, spec_movement, spec_player, spec_setup, GamepadSettings, Stick,
};
use crate::geometry::spec_prompt_texture;
use crate::geometry::Point;
use crate::input::{Frame, FrameView};
use crate::splash::{
    splash_cleanup, splash_countdown, splash_setup, spec_countdown_state, spec_countdown_world,
    spec_splash_cleanup, spec_splash_setup, wants_game,
};
use crate::state::{lemma_enters_match_exits, lemma_set_all_keeps, occurrences};
use crate::state::{Event, MachineView, Stage, StateMachine};
use crate::world::{
    has_none, has_single, is_single, parent_precedes, selected_ids, single_index, Query, World,
    WorldView,
};
use crate::despawn::{
    lemma_despawn_selected_leaves_none, lemma_despawn_wf, lemma_survivors_none,
    lemma_survivors_single,
};
use crate::world::{
    lemma_push_keeps_none, lemma_push_keeps_single, lemma_push_makes_single,
    lemma_selected_ids, lemma_spawn_wf, lemma_update_keeps_none, lemma_update_keeps_single,
    lemma_with_texture_index_wf, lemma_with_translation_wf,
};
use crate::{initial_state, GameState};
use vstd::prelude::*;

verus! {

/// The mathematical content of an [`App`].
pub struct AppView {
    /// The state machine.
    pub machine: MachineView,
    /// The entity store.
    pub world: WorldView,
    /// The gamepad settings.
    pub settings: GamepadSettings,
}

/// Whether the camera is unattached, no part of the splash screen, and
/// still where it was spawned.
pub open spec fn camera_at_rest(world: WorldView) -> bool {
    let camera = world.entities[single_index(world.entities, Query::Camera)];
    &&& camera.parent is None
    &&& !camera.components.splash_screen
    &&& camera.components.translation == Point { x: 0, y: 0 }
}

/// The world while the splash screen is up.
pub open spec fn splash_scene(world: WorldView) -> bool {
    &&& world.next_id == 6
    &&& has_single(world.entities, Query::Camera)
    &&& camera_at_rest(world)
    &&& has_single(world.entities, Query::Continue)
    &&& has_none(world.entities, Query::Player)
}

/// The world after the splash screen was taken down and before the
/// playable scene is set up.
pub open spec fn between_scenes(world: WorldView) -> bool {
    &&& world.next_id == 6
    &&& has_single(world.entities, Query::Camera)
    &&& camera_at_rest(world)
    &&& has_none(world.entities, Query::Player)
    &&& has_none(world.entities, Query::SplashScreen)
}

/// Whether the camera is where the player's character is.
pub open spec fn camera_on_player(world: WorldView) -> bool {
    world.entities[single_index(world.entities, Query::Camera)].components.translation
        == world.entities[single_index(world.entities, Query::Player)].components.translation
}

/// The world while the game is played.
pub open spec fn game_scene(world: WorldView) -> bool {
    &&& world.next_id == 8
    &&& has_single(world.entities, Query::Camera)
    &&& has_single(world.entities, Query::Player)
    &&& has_none(world.entities, Query::SplashScreen)
    &&& camera_on_player(world)
}

impl AppView {
    /// The game as it starts: on the splash screen, which is yet to be set
    /// up, with nothing in the world.
    pub open spec fn start() -> AppView {
        AppView {
            machine: MachineView::start(GameState::Splash),
            world: WorldView::spec_new(),
            settings: GamepadSettings::spec_new(),
        }
    }

    /// What holds between ticks: no request is waiting, and the world is
    /// what the active state has made of it.
    pub open spec fn wf(self) -> bool {
        &&& self.world.wf()
        &&& self.machine.scheduled is None
        &&& match self.machine.stage() {
            Stage::Enter(GameState::Splash) => self.world.entities.len() == 0 && self.world.next_id
                == 0,
            Stage::Update(GameState::Splash) => splash_scene(self.world),
            Stage::Enter(GameState::Game) => between_scenes(self.world),
            Stage::Update(GameState::Game) => game_scene(self.world),
        }
    }

    /// The movement input as the game sees it: zero inside the dead zone.
    pub open spec fn filtered(self, stick: Stick) -> Stick {
        Stick {
            x: spec_filter_axis(self.settings, stick.x),
            y: spec_filter_axis(self.settings, stick.y),
        }
    }

    /// The transitions that the callbacks request on the next tick: the
    /// game, once, if the splash screen is up and the input asks for it.
    pub open spec fn requests(self, frame: FrameView) -> Seq<GameState> {
        if self.machine.stage() == Stage::Update(GameState::Splash) && wants_game(
            frame.presses,
            frame.released,
            frame.cursor_moved,
        ) {
            seq![GameState::Game]
        } else {
            Seq::empty()
        }
    }

    /// The game after the enter or update callbacks of the active state.
    pub open spec fn after_stage(self, frame: FrameView) -> AppView {
        match self.machine.stage() {
            Stage::Enter(GameState::Splash) => AppView {
                world: spec_splash_setup(self.world),
                ..self
            },
            Stage::Update(GameState::Splash) => AppView {
                machine: spec_countdown_state(
                    self.machine,
                    frame.presses,
                    frame.released,
                    frame.cursor_moved,
                ),
                world: spec_countdown_world(self.world, frame.cursor_moved),
                ..self
            },
            Stage::Enter(GameState::Game) => AppView {
                world: spec_setup(self.world),
                settings: GamepadSettings::spec_configured(),
                ..self
            },
            Stage::Update(GameState::Game) => AppView {
                world: spec_camera_follow(
                    spec_movement(self.world, frame.elapsed_micros, self.filtered(frame.stick)),
                ),
                ..self
            },
        }
    }

    /// The game after the exit callbacks of the state that is being left,
    /// if one is.
    pub open spec fn after_exit(self) -> AppView {
        match self.machine.exiting() {
            Some(GameState::Splash) => AppView { world: spec_splash_cleanup(self.world), ..self },
            Some(GameState::Game) => self,
            None => self,
        }
    }

    /// The game after one tick.
    pub open spec fn tick(self, frame: FrameView) -> AppView {
        let ran = self.after_stage(frame).after_exit();
        AppView { machine: ran.machine.advance(), ..ran }
    }

    /// The callbacks that run on that tick.
    pub open spec fn tick_events(self, frame: FrameView) -> Seq<Event> {
        self.machine.tick_events(self.requests(frame))
    }

    /// The game after one tick for each of `frames`.
    pub open spec fn run(self, frames: Seq<FrameView>) -> AppView
        decreases frames.len(),
    {
        if frames.len() == 0 {
            self
        } else {
            self.run(frames.drop_last()).tick(frames.last())
        }
    }

    /// The callbacks that run over those ticks, in order.
    pub open spec fn run_events(self, frames: Seq<FrameView>) -> Seq<Event>
        decreases frames.len(),
    {
        if frames.len() == 0 {
            Seq::empty()
        } else {
            self.run_events(frames.drop_last()) + self.run(frames.drop_last()).tick_events(
                frames.last(),
            )
        }
    }

    /// The transitions requested over those ticks, tick by tick.
    pub open spec fn run_requests(self, frames: Seq<FrameView>) -> Seq<Seq<GameState>>
        decreases frames.len(),
    {
        if frames.len() == 0 {
            Seq::empty()
        } else {
            self.run_requests(frames.drop_last()).push(
                self.run(frames.drop_last()).requests(frames.last()),
            )
        }
    }
}

/// The state whose callbacks `event` stands for.
pub open spec fn event_state(event: Event) -> GameState {
    match event {
        Event::Enter(state) => state,
        Event::Update(state) => state,
        Event::Exit(state) => state,
    }
}

/// Setting the splash screen up in an empty world gives the splash scene.
proof fn lemma_enter_splash(world: WorldView)
    requires
        world.entities.len() == 0,
        world.next_id == 0,
    ensures
        spec_splash_setup(world).wf(),
        splash_scene(spec_splash_setup(world)),
{
    let scene = spec_splash_setup(world).entities;
    assert(scene.len() == 6);
    assert(is_single(scene, Query::Camera, 0));
    assert(is_single(scene, Query::Continue, 4));
    assert(is_single(scene, Query::Camera, single_index(scene, Query::Camera)));
    assert forall|i: int| 0 <= i < scene.len() implies #[trigger] parent_precedes(scene, i) by {
        assert(scene[i].parent is None);
    }
}

/// An update of the splash screen that requests nothing leaves the splash
/// scene up.
proof fn lemma_update_splash_stays(world: WorldView, cursor_moved: Seq<Point>)
    requires
        world.wf(),
        splash_scene(world),
    ensures
        spec_countdown_world(world, cursor_moved).wf(),
        splash_scene(spec_countdown_world(world, cursor_moved)),
{
    if cursor_moved.len() > 0 {
        let prompt = single_index(world.entities, Query::Continue);
        let camera = single_index(world.entities, Query::Camera);
        let index = spec_prompt_texture(cursor_moved.last());
        let after = world.with_texture_index(prompt, index);
        assert(is_single(world.entities, Query::Continue, prompt));
        assert(is_single(world.entities, Query::Camera, camera));
        lemma_with_texture_index_wf(world, prompt, index);
        lemma_update_keeps_single(world.entities, prompt, after.entities[prompt], Query::Camera);
        lemma_update_keeps_single(
            world.entities,
            prompt,
            after.entities[prompt],
            Query::Continue,
        );
        lemma_update_keeps_none(world.entities, prompt, after.entities[prompt], Query::Player);
    }
}

/// Taking the splash screen down leaves the camera and nothing of the
/// splash screen.
proof fn lemma_exit_splash(world: WorldView)
    requires
        world.wf(),
        splash_scene(world),
    ensures
        spec_splash_cleanup(world).wf(),
        between_scenes(spec_splash_cleanup(world)),
{
    let roots = selected_ids(world.entities, Query::SplashScreen).to_set();
    let camera = single_index(world.entities, Query::Camera);
    assert(is_single(world.entities, Query::Camera, camera));
    lemma_despawn_wf(world, roots);
    lemma_despawn_selected_leaves_none(world.entities, Query::SplashScreen);
    lemma_survivors_none(world.entities, roots, Query::Player);
    assert(!roots.contains(world.entities[camera].id)) by {
        lemma_selected_ids(world.entities, Query::SplashScreen);
        if roots.contains(world.entities[camera].id) {
            let id = world.entities[camera].id;
            assert(selected_ids(world.entities, Query::SplashScreen).contains(id));
            let i = choose|i: int|
                0 <= i < world.entities.len() && world.entities[i].id == id
                    && world.entities[i].spec_matches(Query::SplashScreen);
            if i < camera {
                assert(world.entities[i].id < world.entities[camera].id);
            } else if camera < i {
                assert(world.entities[camera].id < world.entities[i].id);
            }
        }
    }
    lemma_survivors_single(world.entities, roots, Query::Camera);
}

/// Setting the playable scene up after the splash screen went gives the
/// game scene.
proof fn lemma_enter_game(world: WorldView)
    requires
        world.wf(),
        between_scenes(world),
    ensures
        spec_setup(world).wf(),
        game_scene(spec_setup(world)),
{
    let player = world.spawned(None, spec_player());
    let first = world.spawn(None, spec_player());
    let grass = first.spawned(None, spec_grass());
    let second = first.spawn(None, spec_grass());
    lemma_spawn_wf(world, None, spec_player());
    lemma_spawn_wf(first, None, spec_grass());
    lemma_push_keeps_single(world.entities, player, Query::Camera);
    lemma_push_keeps_single(first.entities, grass, Query::Camera);
    lemma_push_makes_single(world.entities, player, Query::Player);
    lemma_push_keeps_single(first.entities, grass, Query::Player);
    lemma_push_keeps_none(world.entities, player, Query::SplashScreen);
    lemma_push_keeps_none(first.entities, grass, Query::SplashScreen);
    assert(is_single(world.entities, Query::Camera, single_index(world.entities, Query::Camera)));
}

/// An update of the game keeps the game scene, with the camera on the
/// player's character.
proof fn lemma_update_game(world: WorldView, elapsed_micros: u32, stick: Stick)
    requires
        world.wf(),
        game_scene(world),
    ensures
        spec_camera_follow(spec_movement(world, elapsed_micros, stick)).wf(),
        game_scene(spec_camera_follow(spec_movement(world, elapsed_micros, stick))),
        has_single(spec_movement(world, elapsed_micros, stick).entities, Query::Camera),
        has_single(spec_movement(world, elapsed_micros, stick).entities, Query::Player),
{
    let camera = single_index(world.entities, Query::Camera);
    let player = single_index(world.entities, Query::Player);
    assert(is_single(world.entities, Query::Camera, camera));
    assert(is_single(world.entities, Query::Player, player));
    let moved = spec_movement(world, elapsed_micros, stick);
    if stick.x != 0 || stick.y != 0 {
        let to = spec_moved(world.entities[player].components.translation, elapsed_micros, stick);
        lemma_with_translation_wf(world, player, to);
        lemma_update_keeps_single(world.entities, player, moved.entities[player], Query::Camera);
        lemma_update_keeps_single(world.entities, player, moved.entities[player], Query::Player);
        lemma_update_keeps_none(
            world.entities,
            player,
            moved.entities[player],
            Query::SplashScreen,
        );
    }
    assert(moved.wf());
    let target = moved.entities[player].components.translation;
    let followed = spec_camera_follow(moved);
    lemma_with_translation_wf(moved, camera, target);
    lemma_update_keeps_single(moved.entities, camera, followed.entities[camera], Query::Camera);
    lemma_update_keeps_single(moved.entities, camera, followed.entities[camera], Query::Player);
    lemma_update_keeps_none(
        moved.entities,
        camera,
        followed.entities[camera],
        Query::SplashScreen,
    );
}

/// A tick leaves the game as it should be between ticks.
pub proof fn lemma_tick_keeps_wf(app: AppView, frame: FrameView)
    requires
        app.wf(),
    ensures
        app.tick(frame).wf(),
{
    match app.machine.stage() {
        Stage::Enter(GameState::Splash) => {
            lemma_enter_splash(app.world);
        },
        Stage::Update(GameState::Splash) => {
            lemma_update_splash_stays(app.world, frame.cursor_moved);
            lemma_exit_splash(spec_countdown_world(app.world, frame.cursor_moved));
        },
        Stage::Enter(GameState::Game) => {
            lemma_enter_game(app.world);
        },
        Stage::Update(GameState::Game) => {
            lemma_update_game(app.world, frame.elapsed_micros, app.filtered(frame.stick));
        },
    }
}

/// Any number of ticks leaves the game as it should be between ticks.
pub proof fn lemma_run_keeps_wf(app: AppView, frames: Seq<FrameView>)
    requires
        app.wf(),
    ensures
        app.run(frames).wf(),
    decreases frames.len(),
{
    if frames.len() > 0 {
        lemma_run_keeps_wf(app, frames.drop_last());
        lemma_tick_keeps_wf(app.run(frames.drop_last()), frames.last());
    }
}

/// However the game went since its start, it is as it should be between
/// ticks.
pub proof fn lemma_reachable_is_wf(frames: Seq<FrameView>)
    ensures
        AppView::start().wf(),
        AppView::start().run(frames).wf(),
{
    lemma_run_keeps_wf(AppView::start(), frames);
}

/// At any time at most one entity is the player's character: exactly one
/// while the game is played, none before.
pub proof fn lemma_one_player_at_most(app: AppView)
    requires
        app.wf(),
    ensures
        app.machine.stage() == Stage::Update(GameState::Game) ==> has_single(
            app.world.entities,
            Query::Player,
        ),
        app.machine.stage() != Stage::Update(GameState::Game) ==> has_none(
            app.world.entities,
            Query::Player,
        ),
{
}

/// The game's state machine does on a tick what the state machine does when
/// the callbacks make the requests that the frame calls for.
pub proof fn lemma_tick_follows_machine(app: AppView, frame: FrameView)
    ensures
        app.tick(frame).machine == app.machine.tick(app.requests(frame)),
{
    let requests = app.requests(frame);
    if requests.len() > 0 {
        assert(requests.drop_last() =~= Seq::<GameState>::empty());
        assert(app.machine.set_all(requests.drop_last()) == app.machine);
    }
}

/// Over any ticks, the game's state machine and the callbacks that run are
/// those of the state machine under the requests that the frames call for.
pub proof fn lemma_run_follows_machine(app: AppView, frames: Seq<FrameView>)
    ensures
        app.run(frames).machine == app.machine.run(app.run_requests(frames)),
        app.run_events(frames) == app.machine.run_events(app.run_requests(frames)),
    decreases frames.len(),
{
    if frames.len() > 0 {
        let requests = app.run_requests(frames);
        lemma_run_follows_machine(app, frames.drop_last());
        lemma_tick_follows_machine(app.run(frames.drop_last()), frames.last());
        assert(requests.drop_last() =~= app.run_requests(frames.drop_last()));
    }
}

/// Whatever the input over however many ticks, the game has run the enter
/// callbacks of each state as often as its exit callbacks, or once more:
/// once more exactly for the state that is active and entered.
pub proof fn lemma_game_enters_match_exits(frames: Seq<FrameView>, state: GameState)
    ensures
        ({
            let app = AppView::start();
            let enters = occurrences(app.run_events(frames), Event::Enter(state));
            let exits = occurrences(app.run_events(frames), Event::Exit(state));
            &&& exits <= enters <= exits + 1
            &&& enters == exits + 1 <==> app.run(frames).machine.entered && app.run(
                frames,
            ).machine.current == state
        }),
{
    let app = AppView::start();
    lemma_run_follows_machine(app, frames);
    lemma_enters_match_exits(GameState::Splash, app.run_requests(frames), state);
}

/// Once the game is played it stays so: a tick in the game state runs
/// callbacks of the game state only and ends in the game state.
pub proof fn lemma_game_is_final(app: AppView, frame: FrameView)
    requires
        app.wf(),
        app.machine.current == GameState::Game,
    ensures
        app.tick(frame).machine.current == GameState::Game,
        forall|i: int|
            0 <= i < app.tick_events(frame).len() ==> event_state(
                #[trigger] app.tick_events(frame)[i],
            ) == GameState::Game,
{
}

/// While the splash screen is up, a tick runs callbacks of the splash
/// screen only.
pub proof fn lemma_splash_runs_splash(app: AppView, frame: FrameView)
    requires
        app.wf(),
        app.machine.current == GameState::Splash,
    ensures
        forall|i: int|
            0 <= i < app.tick_events(frame).len() ==> event_state(
                #[trigger] app.tick_events(frame)[i],
            ) == GameState::Splash,
{
    let requests = app.requests(frame);
    lemma_set_all_keeps(app.machine, requests);
}

/// Whether no callback of the splash screen comes after a callback of the
/// game.
pub open spec fn splash_precedes_game(log: Seq<Event>) -> bool {
    forall|i: int, j: int|
        0 <= i <= j < log.len() && event_state(#[trigger] log[i]) == GameState::Game
            ==> event_state(#[trigger] log[j]) == GameState::Game
}

/// Over any ticks from the start, the callbacks of the splash screen all run
/// before the first callback of the game: none of them, updates included,
/// runs once the transition took effect, and no callback of the game runs
/// before it. While the splash screen is still active, no callback of the
/// game has run at all.
pub proof fn lemma_splash_precedes_game(frames: Seq<FrameView>)
    ensures
        splash_precedes_game(AppView::start().run_events(frames)),
        AppView::start().run(frames).machine.current == GameState::Splash ==> forall|i: int|
            0 <= i < AppView::start().run_events(frames).len() ==> event_state(
                #[trigger] AppView::start().run_events(frames)[i],
            ) == GameState::Splash,
    decreases frames.len(),
{
    let app = AppView::start();
    if frames.len() > 0 {
        let earlier = frames.drop_last();
        let before = app.run(earlier);
        let old_log = app.run_events(earlier);
        let new_log = before.tick_events(frames.last());
        let log = app.run_events(frames);
        lemma_splash_precedes_game(earlier);
        lemma_run_keeps_wf(app, earlier);
        if before.machine.current == GameState::Game {
            lemma_game_is_final(before, frames.last());
        } else {
            lemma_splash_runs_splash(before, frames.last());
        }
        assert forall|i: int, j: int|
            0 <= i <= j < log.len() && event_state(#[trigger] log[i])
                == GameState::Game implies event_state(#[trigger] log[j]) == GameState::Game by {
            if j < old_log.len() {
                assert(log[i] == old_log[i] && log[j] == old_log[j]);
            } else {
                assert(log[j] == new_log[j - old_log.len()]);
                if i < old_log.len() {
                    assert(log[i] == old_log[i]);
                } else {
                    assert(log[i] == new_log[i - old_log.len()]);
                }
            }
        }
        if app.run(frames).machine.current == GameState::Splash {
            assert forall|i: int| 0 <= i < log.len() implies event_state(#[trigger] log[i])
                == GameState::Splash by {
                if i < old_log.len() {
                    assert(log[i] == old_log[i]);
                } else {
                    assert(log[i] == new_log[i - old_log.len()]);
                }
            }
        }
    }
}

/// A tick on which the exit callbacks of the splash screen run leaves no
/// entity of the splash screen, and none comes back while the game is
/// played.
pub proof fn lemma_exit_clears_splash_screen(app: AppView, frame: FrameView)
    requires
        app.wf(),
    ensures
        app.tick_events(frame).contains(Event::Exit(GameState::Splash)) ==> has_none(
            app.tick(frame).world.entities,
            Query::SplashScreen,
        ),
        app.machine.current == GameState::Game ==> has_none(
            app.world.entities,
            Query::SplashScreen,
        ) && has_none(app.tick(frame).world.entities, Query::SplashScreen),
{
    lemma_tick_keeps_wf(app, frame);
    let log = app.tick_events(frame);
    if log.contains(Event::Exit(GameState::Splash)) {
        let i = choose|i: int| 0 <= i < log.len() && log[i] == Event::Exit(GameState::Splash);
        lemma_set_all_keeps(app.machine, app.requests(frame));
        lemma_tick_follows_machine(app, frame);
    }
}

/// After any tick in the game state the camera is exactly where the
/// player's character is.
pub proof fn lemma_camera_follows(app: AppView, frame: FrameView)
    requires
        app.wf(),
        app.machine.current == GameState::Game,
    ensures
        has_single(app.tick(frame).world.entities, Query::Camera),
        has_single(app.tick(frame).world.entities, Query::Player),
        camera_on_player(app.tick(frame).world),
{
    lemma_tick_keeps_wf(app, frame);
}

/// A gamepad button that goes down while the splash screen is up ends it:
/// the update is followed by the exit callbacks, after the tick the game
/// state is active, and nothing of the splash screen is left.
pub proof fn lemma_button_press_starts_game(app: AppView, frame: FrameView)
    requires
        app.wf(),
        app.machine.stage() == Stage::Update(GameState::Splash),
        frame.presses > 0,
    ensures
        app.tick(frame).machine.current == GameState::Game,
        app.tick(frame).machine.stage() == Stage::Enter(GameState::Game),
        app.tick_events(frame) == seq![
            Event::Update(GameState::Splash),
            Event::Exit(GameState::Splash),
        ],
        has_none(app.tick(frame).world.entities, Query::SplashScreen),
{
    lemma_tick_keeps_wf(app, frame);
    let requests = app.requests(frame);
    assert(requests.drop_last() =~= Seq::<GameState>::empty());
    assert(app.machine.set_all(requests.drop_last()) == app.machine);
}

/// The game.
#[derive(Debug)]
pub struct App {
    machine: StateMachine,
    world: World,
    settings: GamepadSettings,
}

impl View for App {
    type V = AppView;

    closed spec fn view(&self) -> AppView {
        AppView { machine: self.machine@, world: self.world@, settings: self.settings }
    }
}

impl App {
    #[verifier::type_invariant]
    closed spec fn inv(self) -> bool {
        self@.wf()
    }

    /// The game as it starts: on the splash screen, which the first tick
    /// sets up.
    pub fn new() -> (app: App)
        ensures
            app@ == AppView::start(),
            app@.wf(),
    {
        let world = World::new();
        App { machine: StateMachine::new(initial_state()), world, settings: GamepadSettings::new() }
    }

    /// The active state.
    pub fn current(&self) -> (state: GameState)
        ensures
            state == self@.machine.current,
    {
        self.machine.current()
    }

    /// The state machine.
    pub fn machine(&self) -> (machine: &StateMachine)
        ensures
            machine@ == self@.machine,
    {
        &self.machine
    }

    /// The entity store.
    pub fn world(&self) -> (world: &World)
        ensures
            world@ == self@.world,
            self@.wf(),
    {
        proof {
            use_type_invariant(self);
        }
        &self.world
    }

    /// The gamepad settings.
    pub fn settings(&self) -> (settings: GamepadSettings)
        ensures
            settings == self@.settings,
    {
        self.settings
    }

    /// Runs one tick.
    ///
    /// A state that was not entered yet runs its enter callbacks: the splash
    /// screen or the playable scene is set up, and with the latter the
    /// gamepads are configured. An entered state runs its update callbacks:
    /// the splash screen reacts to the input, or the character moves and
    /// then the camera follows. If a transition was requested, the tick ends
    /// with the exit callbacks of the state that is left, and the next tick
    /// enters the new one. Returns the callbacks that ran.
    pub fn tick(&mut self, frame: &Frame) -> (events: Vec<Event>)
        ensures
            final(self)@ == old(self)@.tick(frame@),
            events@ == old(self)@.tick_events(frame@),
            old(self)@.wf(),
            final(self)@.wf(),
    {
        let ghost before = self@;
        let mut taken = App::new();
        std::mem::swap(self, &mut taken);
        proof {
            use_type_invariant(&taken);
            lemma_tick_keeps_wf(before, frame@);
        }
        let App { mut machine, mut world, mut settings } = taken;
        let mut events: Vec<Event> = Vec::new();
        match machine.stage() {
            Stage::Enter(GameState::Splash) => {
                events.push(Event::Enter(GameState::Splash));
                splash_setup(&mut world);
            },
            Stage::Update(GameState::Splash) => {
                events.push(Event::Update(GameState::Splash));
                splash_countdown(
                    frame.button_inputs,
                    &mut machine,
                    &mut world,
                    frame.cursor_moved,
                    frame.mouse_button_input,
                );
            },
            Stage::Enter(GameState::Game) => {
                events.push(Event::Enter(GameState::Game));
                setup(&mut world);
                configure_gamepads(&mut settings);
            },
            Stage::Update(GameState::Game) => {
                events.push(Event::Update(GameState::Game));
                let stick = settings.filter(frame.stick);
                proof {
                    lemma_update_game(before.world, frame.elapsed_micros, stick);
                }
                movement(&mut world, frame.elapsed_micros, stick);
                camera_follow(&mut world);
            },
        }
        proof {
            assert(machine@ == before.machine.set_all(before.requests(frame@))) by {
                let requests = before.requests(frame@);
                if requests.len() > 0 {
                    assert(requests.drop_last() =~= Seq::<GameState>::empty());
                    assert(before.machine.set_all(requests.drop_last()) == before.machine);
                }
            }
        }
        match machine.exiting() {
            Some(GameState::Splash) => {
                events.push(Event::Exit(GameState::Splash));
                proof {
                    lemma_update_splash_stays(before.world, frame.cursor_moved@);
                }
                splash_cleanup(&mut world);
            },
            Some(GameState::Game) => {
                events.push(Event::Exit(GameState::Game));
            },
            None => {},
        }
        machine.advance();
        proof {
            assert(events@ =~= before.tick_events(frame@));
        }
        *self = App { machine, world, settings };
        events
    }
}

} // verus!
