use bevy::input::gamepad::{Gamepad, GamepadButton, GamepadButtonType};
use bevy::input::mouse::MouseButton;
use bevy::input::Input;
use journey::geometry::Point;
use journey::splash::{
    countdown, observe, react, spawn_continue, spawn_planet, splash_cleanup,
    splash_countdown, splash_setup, Reaction,
};
use journey::state::StateMachine;
use journey::world::{AnimatedTile, Components, Image, Query, World};
use journey::GameState;

fn ids(world: &World) -> Vec<u64> {
    (0..world.len()).map(|i| world.get(i).id).collect()
}

fn entered_splash() -> StateMachine {
    let mut machine = StateMachine::new(GameState::Splash);
    machine.advance();
    machine
}

fn button(id: usize, button_type: GamepadButtonType) -> GamepadButton {
    GamepadButton::new(Gamepad::new(id), button_type)
}

fn inside() -> Point {
    Point::from_units(940, 540)
}

fn outside() -> Point {
    Point::from_units(100, 100)
}

#[test]
fn the_planet_is_a_tile_map_and_a_spinning_tile() {
    let mut world = World::new();
    spawn_planet(&mut world);
    assert_eq!(world.len(), 2);
    let map = world.get(0);
    assert_eq!(map.id, 0);
    assert_eq!(map.parent, None);
    assert_eq!(
        map.components,
        Components {
            image: Some(Image::Planet),
            translation: Point { x: -325_000_000_000, y: 75_000_000_000 },
            ..Components::empty()
        }
    );
    let tile = world.get(1);
    assert_eq!(tile.id, 1);
    assert_eq!(tile.parent, None);
    assert_eq!(
        tile.components,
        Components {
            splash_screen: true,
            tilemap: Some(0),
            texture_index: 0,
            animation: Some(AnimatedTile { start: 0, end: 212, frame_millis: 75 }),
            ..Components::empty()
        }
    );
}

#[test]
fn the_prompt_is_a_tile_map_and_a_marked_tile() {
    let mut world = World::new();
    world.spawn(None, Components::empty());
    spawn_continue(&mut world);
    assert_eq!(world.len(), 3);
    assert_eq!(
        world.get(1).components,
        Components {
            image: Some(Image::Continue),
            translation: Point { x: 300_000_000_000, y: 180_000_000_000 },
            ..Components::empty()
        }
    );
    assert_eq!(
        world.get(2).components,
        Components {
            splash_screen: true,
            continue_prompt: true,
            tilemap: Some(1),
            texture_index: 0,
            ..Components::empty()
        }
    );
    assert_eq!(world.single(Query::Continue), 2);
}

#[test]
fn setup_spawns_the_splash_scene_and_nothing_else() {
    let mut world = World::new();
    splash_setup(&mut world);
    assert_eq!(ids(&world), vec![0, 1, 2, 3, 4, 5]);
    assert_eq!(world.next_id(), 6);
    assert_eq!(
        world.get(0).components,
        Components { camera: true, ..Components::empty() }
    );
    assert_eq!(world.get(1).components.image, Some(Image::Planet));
    assert_eq!(world.get(2).components.tilemap, Some(1));
    assert_eq!(world.get(3).components.image, Some(Image::Continue));
    assert_eq!(world.get(4).components.tilemap, Some(3));
    assert_eq!(
        world.get(5).components,
        Components {
            splash_screen: true,
            image: Some(Image::TitleScreenBackground),
            ..Components::empty()
        }
    );
    assert_eq!(world.query(Query::Camera), vec![0]);
    assert_eq!(world.query(Query::SplashScreen), vec![2, 4, 5]);
    assert_eq!(world.query(Query::Continue), vec![4]);
    assert_eq!(world.query(Query::Player), Vec::<u64>::new());
}

#[test]
fn cleanup_leaves_no_entity_of_the_splash_screen() {
    let mut world = World::new();
    splash_setup(&mut world);
    splash_cleanup(&mut world);
    assert_eq!(world.query(Query::SplashScreen), Vec::<u64>::new());
    assert_eq!(world.query(Query::Continue), Vec::<u64>::new());
    assert_eq!(ids(&world), vec![0, 1, 3]);
    assert!(world.get(0).components.camera);
    assert_eq!(world.next_id(), 6);
}

#[test]
fn cleanup_takes_what_is_attached_to_the_splash_screen() {
    let mut world = World::new();
    splash_setup(&mut world);
    let held = world.spawn(Some(5), Components::empty());
    let deeper = world.spawn(Some(held), Components { player: true, ..Components::empty() });
    let free = world.spawn(Some(0), Components::empty());
    assert_eq!((held, deeper, free), (6, 7, 8));
    splash_cleanup(&mut world);
    assert_eq!(ids(&world), vec![0, 1, 3, 8]);
    assert_eq!(world.query(Query::SplashScreen), Vec::<u64>::new());
}

#[test]
fn cleanup_of_a_world_without_splash_screen_changes_nothing() {
    let mut world = World::new();
    world.spawn(None, Components { player: true, ..Components::empty() });
    world.spawn(Some(0), Components::empty());
    splash_cleanup(&mut world);
    assert_eq!(ids(&world), vec![0, 1]);
}

#[test]
fn nothing_happens_without_input() {
    assert_eq!(react(0, false, &vec![]), Reaction { start_game: false, texture_index: None });
    assert_eq!(react(0, true, &vec![]), Reaction { start_game: false, texture_index: None });
}

#[test]
fn any_button_press_requests_the_game() {
    assert_eq!(react(1, false, &vec![]), Reaction { start_game: true, texture_index: None });
    assert_eq!(
        react(3, false, &vec![outside()]),
        Reaction { start_game: true, texture_index: Some(0) }
    );
    assert_eq!(
        react(usize::MAX, true, &vec![inside()]),
        Reaction { start_game: true, texture_index: Some(1) }
    );
}

#[test]
fn hovering_highlights_without_requesting() {
    assert_eq!(
        react(0, false, &vec![inside()]),
        Reaction { start_game: false, texture_index: Some(1) }
    );
    assert_eq!(
        react(0, false, &vec![inside(), outside()]),
        Reaction { start_game: false, texture_index: Some(0) }
    );
}

#[test]
fn a_release_over_the_prompt_requests_the_game() {
    assert_eq!(
        react(0, true, &vec![inside()]),
        Reaction { start_game: true, texture_index: Some(1) }
    );
    assert_eq!(
        react(0, true, &vec![outside(), inside(), outside()]),
        Reaction { start_game: true, texture_index: Some(0) }
    );
}

#[test]
fn a_release_elsewhere_requests_nothing() {
    assert_eq!(
        react(0, true, &vec![outside(), Point::from_units(600, 360)]),
        Reaction { start_game: false, texture_index: Some(0) }
    );
}

#[test]
fn the_last_pointer_position_decides_the_look() {
    assert_eq!(react(0, false, &vec![outside(), inside()]).texture_index, Some(1));
    assert_eq!(react(0, false, &vec![inside(), inside(), outside()]).texture_index, Some(0));
}

#[test]
fn countdown_applies_the_reaction() {
    let mut world = World::new();
    splash_setup(&mut world);
    let mut machine = entered_splash();
    countdown(0, false, &vec![inside()], &mut machine, &mut world);
    assert_eq!(machine.scheduled(), None);
    assert_eq!(world.get(4).components.texture_index, 1);
    countdown(0, false, &vec![], &mut machine, &mut world);
    assert_eq!(world.get(4).components.texture_index, 1);
    countdown(2, false, &vec![outside()], &mut machine, &mut world);
    assert_eq!(machine.scheduled(), Some(GameState::Game));
    assert_eq!(world.get(4).components.texture_index, 0);
    for i in [0usize, 1, 2, 3, 5] {
        assert_eq!(world.get(i).components.texture_index, 0);
    }
    assert_eq!(world.len(), 6);
}

#[test]
fn countdown_passes_over_a_refused_request() {
    let mut world = World::new();
    splash_setup(&mut world);
    let mut machine = StateMachine::new(GameState::Splash);
    countdown(1, false, &vec![], &mut machine, &mut world);
    assert_eq!(machine.scheduled(), None);
    let mut playing = StateMachine::new(GameState::Game);
    playing.advance();
    countdown(1, true, &vec![inside()], &mut playing, &mut world);
    assert_eq!(playing.scheduled(), None);
    assert_eq!(playing.current(), GameState::Game);
}

#[test]
fn a_pressed_gamepad_button_requests_the_game() {
    let mut world = World::new();
    splash_setup(&mut world);
    let mut machine = entered_splash();
    let mut buttons = Input::<GamepadButton>::default();
    let mouse = Input::<MouseButton>::default();
    splash_countdown(&buttons, &mut machine, &mut world, &vec![], &mouse);
    assert_eq!(machine.scheduled(), None);
    buttons.press(button(0, GamepadButtonType::South));
    splash_countdown(&buttons, &mut machine, &mut world, &vec![], &mouse);
    assert_eq!(machine.scheduled(), Some(GameState::Game));
}

#[test]
fn any_gamepad_button_counts() {
    for button_type in [
        GamepadButtonType::East,
        GamepadButtonType::Start,
        GamepadButtonType::DPadUp,
        GamepadButtonType::LeftTrigger2,
    ] {
        let mut world = World::new();
        splash_setup(&mut world);
        let mut machine = entered_splash();
        let mut buttons = Input::<GamepadButton>::default();
        buttons.press(button(3, button_type));
        buttons.press(button(1, GamepadButtonType::West));
        let mouse = Input::<MouseButton>::default();
        splash_countdown(&buttons, &mut machine, &mut world, &vec![], &mouse);
        assert_eq!(machine.scheduled(), Some(GameState::Game));
    }
}

#[test]
fn a_held_gamepad_button_requests_nothing() {
    let mut world = World::new();
    splash_setup(&mut world);
    let mut machine = entered_splash();
    let mut buttons = Input::<GamepadButton>::default();
    buttons.press(button(0, GamepadButtonType::South));
    buttons.clear();
    assert!(buttons.pressed(button(0, GamepadButtonType::South)));
    let mouse = Input::<MouseButton>::default();
    splash_countdown(&buttons, &mut machine, &mut world, &vec![], &mouse);
    assert_eq!(machine.scheduled(), None);
    buttons.release(button(0, GamepadButtonType::South));
    splash_countdown(&buttons, &mut machine, &mut world, &vec![], &mouse);
    assert_eq!(machine.scheduled(), None);
}

#[test]
fn a_left_click_on_the_prompt_requests_the_game() {
    let mut world = World::new();
    splash_setup(&mut world);
    let mut machine = entered_splash();
    let buttons = Input::<GamepadButton>::default();
    let mut mouse = Input::<MouseButton>::default();
    mouse.press(MouseButton::Left);
    splash_countdown(&buttons, &mut machine, &mut world, &vec![inside()], &mouse);
    assert_eq!(machine.scheduled(), None);
    assert_eq!(world.get(4).components.texture_index, 1);
    mouse.clear();
    mouse.release(MouseButton::Left);
    splash_countdown(&buttons, &mut machine, &mut world, &vec![inside()], &mouse);
    assert_eq!(machine.scheduled(), Some(GameState::Game));
}

#[test]
fn other_mouse_buttons_request_nothing() {
    let mut world = World::new();
    splash_setup(&mut world);
    let mut machine = entered_splash();
    let buttons = Input::<GamepadButton>::default();
    let mut mouse = Input::<MouseButton>::default();
    mouse.press(MouseButton::Right);
    mouse.press(MouseButton::Middle);
    mouse.release(MouseButton::Right);
    mouse.release(MouseButton::Middle);
    splash_countdown(&buttons, &mut machine, &mut world, &vec![inside()], &mouse);
    assert_eq!(machine.scheduled(), None);
    assert_eq!(world.get(4).components.texture_index, 1);
}

#[test]
fn a_left_click_away_from_the_prompt_requests_nothing() {
    let mut world = World::new();
    splash_setup(&mut world);
    let mut machine = entered_splash();
    let buttons = Input::<GamepadButton>::default();
    let mut mouse = Input::<MouseButton>::default();
    mouse.press(MouseButton::Left);
    mouse.release(MouseButton::Left);
    splash_countdown(&buttons, &mut machine, &mut world, &vec![outside()], &mouse);
    assert_eq!(machine.scheduled(), None);
    splash_countdown(&buttons, &mut machine, &mut world, &vec![], &mouse);
    assert_eq!(machine.scheduled(), None);
}

#[test]
fn observe_reads_the_buttons() {
    let mut buttons = Input::<GamepadButton>::default();
    let mut mouse = Input::<MouseButton>::default();
    assert_eq!(
        observe(&buttons, &mouse, &vec![inside()]),
        Reaction { start_game: false, texture_index: Some(1) }
    );
    mouse.press(MouseButton::Left);
    mouse.release(MouseButton::Left);
    assert_eq!(
        observe(&buttons, &mouse, &vec![inside(), outside()]),
        Reaction { start_game: true, texture_index: Some(0) }
    );
    assert_eq!(
        observe(&buttons, &mouse, &vec![outside()]),
        Reaction { start_game: false, texture_index: Some(0) }
    );
    buttons.press(button(2, GamepadButtonType::Select));
    assert_eq!(
        observe(&buttons, &mouse, &vec![]),
        Reaction { start_game: true, texture_index: None }
    );
    buttons.clear();
    mouse.clear();
    assert_eq!(
        observe(&buttons, &mouse, &vec![inside()]),
        Reaction { start_game: false, texture_index: Some(1) }
    );
}
