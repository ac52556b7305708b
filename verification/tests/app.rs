use bevy::input::gamepad::{Gamepad, GamepadButton, GamepadButtonType};
use bevy::input::mouse::MouseButton;
use bevy::input::Input;
use journey::app::App;
use journey::gameplay::{GamepadSettings, Stick};
use journey::geometry::Point;
use journey::input::Frame;
use journey::state::{Event, Stage};
use journey::world::{Query, World};
use journey::GameState;

struct Pad {
    buttons: Input<GamepadButton>,
    mouse: Input<MouseButton>,
    cursor: Vec<Point>,
}

impl Pad {
    fn idle() -> Pad {
        Pad { buttons: Input::default(), mouse: Input::default(), cursor: vec![] }
    }

    fn pressed() -> Pad {
        let mut pad = Pad::idle();
        pad.buttons.press(GamepadButton::new(Gamepad::new(0), GamepadButtonType::South));
        pad
    }

    fn clicked(at: Point) -> Pad {
        let mut pad = Pad::idle();
        pad.mouse.press(MouseButton::Left);
        pad.mouse.release(MouseButton::Left);
        pad.cursor.push(at);
        pad
    }

    fn frame(&self, elapsed_micros: u32, stick: Stick) -> Frame<'_> {
        Frame {
            button_inputs: &self.buttons,
            mouse_button_input: &self.mouse,
            cursor_moved: &self.cursor,
            elapsed_micros,
            stick,
        }
    }

    fn still(&self) -> Frame<'_> {
        self.frame(16_667, Stick { x: 0, y: 0 })
    }
}

fn at(world: &World, query: Query) -> Point {
    world.get(world.single(query)).components.translation
}

fn playing() -> App {
    let mut app = App::new();
    app.tick(&Pad::idle().still());
    app.tick(&Pad::pressed().still());
    app.tick(&Pad::idle().still());
    app
}

#[test]
fn the_game_starts_with_an_empty_world() {
    let app = App::new();
    assert_eq!(app.current(), GameState::Splash);
    assert_eq!(app.machine().stage(), Stage::Enter(GameState::Splash));
    assert_eq!(app.world().len(), 0);
    assert_eq!(app.settings(), GamepadSettings::new());
}

#[test]
fn the_first_tick_sets_the_splash_screen_up() {
    let mut app = App::new();
    let events = app.tick(&Pad::pressed().still());
    assert_eq!(events, vec![Event::Enter(GameState::Splash)]);
    assert_eq!(app.current(), GameState::Splash);
    assert_eq!(app.machine().stage(), Stage::Update(GameState::Splash));
    assert_eq!(app.world().len(), 6);
    assert_eq!(app.world().query(Query::SplashScreen), vec![2, 4, 5]);
}

#[test]
fn the_splash_screen_stays_until_asked() {
    let mut app = App::new();
    app.tick(&Pad::idle().still());
    for _ in 0..5 {
        let events = app.tick(&Pad::idle().frame(16_667, Stick { x: 1000, y: 1000 }));
        assert_eq!(events, vec![Event::Update(GameState::Splash)]);
        assert_eq!(app.current(), GameState::Splash);
        assert_eq!(app.world().len(), 6);
    }
    assert_eq!(at(app.world(), Query::Camera), Point { x: 0, y: 0 });
}

#[test]
fn a_button_press_on_the_splash_screen_starts_the_game() {
    let mut app = App::new();
    app.tick(&Pad::idle().still());
    let before = app.world().query(Query::SplashScreen);
    assert_eq!(before.len(), 3);
    let events = app.tick(&Pad::pressed().still());
    assert_eq!(
        events,
        vec![Event::Update(GameState::Splash), Event::Exit(GameState::Splash)]
    );
    assert_eq!(app.current(), GameState::Game);
    assert_eq!(app.world().query(Query::SplashScreen), Vec::<u64>::new());
    for id in before {
        assert!(!app.world().contains_id(id));
    }
    assert_eq!(app.world().query(Query::Camera), vec![0]);
}

#[test]
fn a_click_on_the_prompt_starts_the_game() {
    let mut app = App::new();
    app.tick(&Pad::idle().still());
    let events = app.tick(&Pad::clicked(Point::from_units(100, 100)).still());
    assert_eq!(events, vec![Event::Update(GameState::Splash)]);
    assert_eq!(app.current(), GameState::Splash);
    let events = app.tick(&Pad::clicked(Point::from_units(940, 540)).still());
    assert_eq!(
        events,
        vec![Event::Update(GameState::Splash), Event::Exit(GameState::Splash)]
    );
    assert_eq!(app.current(), GameState::Game);
}

#[test]
fn hovering_shows_on_the_prompt() {
    let mut app = App::new();
    app.tick(&Pad::idle().still());
    let mut pad = Pad::idle();
    pad.cursor = vec![Point::from_units(100, 100), Point::from_units(940, 540)];
    app.tick(&pad.still());
    let prompt = app.world().single(Query::Continue);
    assert_eq!(app.world().get(prompt).components.texture_index, 1);
    pad.cursor = vec![Point::from_units(600, 360)];
    app.tick(&pad.still());
    assert_eq!(app.world().get(prompt).components.texture_index, 0);
    app.tick(&Pad::idle().still());
    assert_eq!(app.world().get(prompt).components.texture_index, 0);
    assert_eq!(app.current(), GameState::Splash);
}

#[test]
fn the_tick_after_the_splash_screen_sets_the_game_up() {
    let mut app = App::new();
    app.tick(&Pad::idle().still());
    app.tick(&Pad::pressed().still());
    assert_eq!(app.machine().stage(), Stage::Enter(GameState::Game));
    assert_eq!(app.world().query(Query::Player), Vec::<u64>::new());
    assert_eq!(app.settings(), GamepadSettings::new());
    let events = app.tick(&Pad::idle().frame(100_000, Stick { x: 1000, y: 0 }));
    assert_eq!(events, vec![Event::Enter(GameState::Game)]);
    assert_eq!(app.world().query(Query::Player), vec![6]);
    assert_eq!(app.world().len(), 5);
    assert_eq!(at(app.world(), Query::Player), Point { x: 0, y: 0 });
    assert_eq!(at(app.world(), Query::Camera), Point { x: 0, y: 0 });
    assert_eq!(
        app.settings(),
        GamepadSettings { deadzone_lowerbound: -125, deadzone_upperbound: 125 }
    );
}

#[test]
fn the_camera_is_on_the_character_after_every_tick_of_the_game() {
    let mut app = playing();
    let sticks = [
        Stick { x: 1000, y: 0 },
        Stick { x: -400, y: 900 },
        Stick { x: 0, y: 0 },
        Stick { x: 126, y: -125 },
        Stick { x: 3000, y: -3000 },
    ];
    for (i, stick) in sticks.into_iter().enumerate() {
        let events = app.tick(&Pad::idle().frame(100_000, stick));
        assert_eq!(events, vec![Event::Update(GameState::Game)], "tick {}", i);
        assert_eq!(at(app.world(), Query::Camera), at(app.world(), Query::Player));
    }
    // 20 - 8 + 0 + 2.52 + 20 along x, 0 + 18 + 0 + 0 - 20 along y.
    assert_eq!(at(app.world(), Query::Player), Point { x: 34_520_000_000, y: -2_000_000_000 });
}

#[test]
fn the_dead_zone_swallows_a_stick_at_rest() {
    let mut app = playing();
    app.tick(&Pad::idle().frame(100_000, Stick { x: 125, y: -125 }));
    assert_eq!(at(app.world(), Query::Player), Point { x: 0, y: 0 });
    app.tick(&Pad::idle().frame(100_000, Stick { x: -126, y: 60 }));
    assert_eq!(at(app.world(), Query::Player), Point { x: -2_520_000_000, y: 0 });
}

#[test]
fn the_game_never_goes_back_to_the_splash_screen() {
    let mut app = playing();
    for _ in 0..4 {
        let events = app.tick(&Pad::pressed().still());
        assert_eq!(events, vec![Event::Update(GameState::Game)]);
        let events = app.tick(&Pad::clicked(Point::from_units(940, 540)).still());
        assert_eq!(events, vec![Event::Update(GameState::Game)]);
        assert_eq!(app.current(), GameState::Game);
        assert_eq!(app.world().query(Query::SplashScreen), Vec::<u64>::new());
        assert_eq!(app.world().len(), 5);
    }
}

#[test]
fn enter_and_exit_callbacks_pair_up() {
    let mut app = App::new();
    let mut log: Vec<Event> = Vec::new();
    let count = |log: &Vec<Event>, event: Event| log.iter().filter(|e| **e == event).count();
    for i in 0..12 {
        let pad = if i % 4 == 3 { Pad::pressed() } else { Pad::idle() };
        log.extend(app.tick(&pad.still()));
        for state in [GameState::Splash, GameState::Game] {
            let enters = count(&log, Event::Enter(state));
            let exits = count(&log, Event::Exit(state));
            let active = app.machine().stage() == Stage::Update(state);
            assert_eq!(enters, exits + if active { 1 } else { 0 });
        }
    }
    assert_eq!(count(&log, Event::Enter(GameState::Splash)), 1);
    assert_eq!(count(&log, Event::Exit(GameState::Splash)), 1);
    assert_eq!(count(&log, Event::Enter(GameState::Game)), 1);
    assert_eq!(count(&log, Event::Exit(GameState::Game)), 0);
    assert_eq!(count(&log, Event::Update(GameState::Splash)), 3);
    assert_eq!(count(&log, Event::Update(GameState::Game)), 7);
}

#[test]
fn splash_callbacks_all_come_before_game_callbacks() {
    let mut app = App::new();
    let mut log: Vec<Event> = Vec::new();
    for i in 0..9 {
        let pad = if i >= 2 { Pad::pressed() } else { Pad::idle() };
        log.extend(app.tick(&pad.still()));
    }
    let state_of = |event: &Event| match event {
        Event::Enter(state) | Event::Update(state) | Event::Exit(state) => *state,
    };
    let first_game = log.iter().position(|e| state_of(e) == GameState::Game).unwrap();
    assert_eq!(first_game, 4);
    assert_eq!(log[first_game], Event::Enter(GameState::Game));
    assert_eq!(log[first_game - 1], Event::Exit(GameState::Splash));
    assert!(log[..first_game].iter().all(|e| state_of(e) == GameState::Splash));
    assert!(log[first_game..].iter().all(|e| state_of(e) == GameState::Game));
}
