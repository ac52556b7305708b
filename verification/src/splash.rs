//! The splash screen: what it shows, when it hands over to the game, and how
//! it is taken down.

use crate::geometry::{
    over_prompt, spec_over_prompt, spec_prompt_texture, Point, TEXTURE_DEFAULT,
    TEXTURE_HIGHLIGHTED,
};
use crate::input::{
    count_just_pressed, just_pressed_buttons, left_just_released, primary_just_released,
};
use crate::state::{MachineView, StateMachine};
use crate::despawn::{lemma_despawn_selected_leaves_none, survivors};
use crate::world::lemma_none_selected;
use crate::world::{
    has_none, has_single, selected_ids, single_index, AnimatedTile, Components, Image, Query,
    World, WorldView,
};
use crate::GameState;
use bevy::input::gamepad::GamepadButton;
use bevy::input::mouse::MouseButton;
use bevy::input::Input;
use vstd::prelude::*;

verus! {

/// Where the planet's tile map is, from the screen's centre.
pub const PLANET_X: i64 = -325_000_000_000;

/// Where the planet's tile map is, from the screen's centre.
pub const PLANET_Y: i64 = 75_000_000_000;

/// The first frame of the planet's spin.
pub const PLANET_START: u32 = 0;

/// The end of the planet's frames.
pub const PLANET_END: u32 = 212;

/// How long each frame of the planet is shown, in milliseconds.
pub const PLANET_FRAME_MILLIS: u32 = 75;

/// Where the continue prompt's tile map is, from the screen's centre.
pub const CONTINUE_X: i64 = 300_000_000_000;

/// Where the continue prompt's tile map is, from the screen's centre.
pub const CONTINUE_Y: i64 = 180_000_000_000;

/// The camera.
pub open spec fn spec_camera() -> Components {
    Components { camera: true, ..Components::spec_empty() }
}

/// A tile map that draws `image` at `translation`.
pub open spec fn spec_tilemap(image: Image, translation: Point) -> Components {
    Components { image: Some(image), translation, ..Components::spec_empty() }
}

/// The planet's one tile, on the tile map `tilemap`: part of the splash
/// screen, spinning through its frames.
pub open spec fn spec_planet_tile(tilemap: u64) -> Components {
    Components {
        splash_screen: true,
        tilemap: Some(tilemap),
        texture_index: 0,
        animation: Some(
            AnimatedTile {
                start: PLANET_START,
                end: PLANET_END,
                frame_millis: PLANET_FRAME_MILLIS,
            },
        ),
        ..Components::spec_empty()
    }
}

/// The continue prompt's one tile, on the tile map `tilemap`: part of the
/// splash screen, and the prompt.
pub open spec fn spec_continue_tile(tilemap: u64) -> Components {
    Components {
        splash_screen: true,
        continue_prompt: true,
        tilemap: Some(tilemap),
        texture_index: 0,
        ..Components::spec_empty()
    }
}

/// The starry background, part of the splash screen.
pub open spec fn spec_background() -> Components {
    Components {
        splash_screen: true,
        image: Some(Image::TitleScreenBackground),
        ..Components::spec_empty()
    }
}

/// The world after the planet was added: its tile map, then its tile.
pub open spec fn spec_spawn_planet(world: WorldView) -> WorldView {
    world.spawn(None, spec_tilemap(Image::Planet, Point { x: PLANET_X, y: PLANET_Y })).spawn(
        None,
        spec_planet_tile(world.next_id),
    )
}

/// The world after the continue prompt was added: its tile map, then its
/// tile.
pub open spec fn spec_spawn_continue(world: WorldView) -> WorldView {
    world.spawn(
        None,
        spec_tilemap(Image::Continue, Point { x: CONTINUE_X, y: CONTINUE_Y }),
    ).spawn(None, spec_continue_tile(world.next_id))
}

/// The world after the splash screen was set up: the camera, the planet,
/// the continue prompt and the background were added, in that order.
pub open spec fn spec_splash_setup(world: WorldView) -> WorldView {
    spec_spawn_continue(spec_spawn_planet(world.spawn(None, spec_camera()))).spawn(
        None,
        spec_background(),
    )
}

/// Whether a frame's input asks for the game to start: a gamepad button went
/// down, or the primary mouse button came up in a frame in which the pointer
/// moved over the prompt.
pub open spec fn wants_game(presses: nat, released: bool, cursor_moved: Seq<Point>) -> bool {
    presses > 0 || (released && exists|i: int|
        0 <= i < cursor_moved.len() && spec_over_prompt(cursor_moved[i]))
}

/// The state machine after the splash screen saw a frame's input: one
/// request for the game if the input asks for it.
pub open spec fn spec_countdown_state(
    machine: MachineView,
    presses: nat,
    released: bool,
    cursor_moved: Seq<Point>,
) -> MachineView {
    if wants_game(presses, released, cursor_moved) {
        machine.set(GameState::Game)
    } else {
        machine
    }
}

/// The look that the prompt takes after the pointer moved through
/// `cursor_moved`: the one that the last position calls for.
pub open spec fn spec_last_texture(cursor_moved: Seq<Point>) -> Option<u32> {
    if cursor_moved.len() == 0 {
        None
    } else {
        Some(spec_prompt_texture(cursor_moved.last()))
    }
}

/// The world after the splash screen saw a frame's pointer movements: the
/// prompt shows what the last of them calls for.
pub open spec fn spec_countdown_world(world: WorldView, cursor_moved: Seq<Point>) -> WorldView {
    match spec_last_texture(cursor_moved) {
        Some(texture_index) => world.with_texture_index(
            single_index(world.entities, Query::Continue),
            texture_index,
        ),
        None => world,
    }
}

/// The world after the splash screen was taken down: every entity of the
/// splash screen went, with everything attached to it.
pub open spec fn spec_splash_cleanup(world: WorldView) -> WorldView {
    WorldView {
        entities: survivors(
            world.entities,
            selected_ids(world.entities, Query::SplashScreen).to_set(),
        ),
        ..world
    }
}

/// Adds the spinning planet: a tile map with the planet's frames and its one
/// tile, which belongs to the splash screen.
pub fn spawn_planet(world: &mut World)
    requires
        old(world)@.next_id <= u64::MAX - 2,
    ensures
        final(world)@ == spec_spawn_planet(old(world)@),
{
    let tilemap = world.spawn(
        None,
        Components {
            image: Some(Image::Planet),
            translation: Point { x: PLANET_X, y: PLANET_Y },
            ..Components::empty()
        },
    );
    world.spawn(
        None,
        Components {
            splash_screen: true,
            tilemap: Some(tilemap),
            texture_index: 0,
            animation: Some(
                AnimatedTile {
                    start: PLANET_START,
                    end: PLANET_END,
                    frame_millis: PLANET_FRAME_MILLIS,
                },
            ),
            ..Components::empty()
        },
    );
}

/// Adds the continue prompt: a tile map with the prompt's two looks and its
/// one tile, which belongs to the splash screen and shows the default look.
pub fn spawn_continue(world: &mut World)
    requires
        old(world)@.next_id <= u64::MAX - 2,
    ensures
        final(world)@ == spec_spawn_continue(old(world)@),
{
    let tilemap = world.spawn(
        None,
        Components {
            image: Some(Image::Continue),
            translation: Point { x: CONTINUE_X, y: CONTINUE_Y },
            ..Components::empty()
        },
    );
    world.spawn(
        None,
        Components {
            splash_screen: true,
            continue_prompt: true,
            tilemap: Some(tilemap),
            texture_index: 0,
            ..Components::empty()
        },
    );
}

/// Sets the splash screen up: a camera, the planet, the continue prompt and
/// the background.
pub fn splash_setup(world: &mut World)
    requires
        old(world)@.next_id <= u64::MAX - 6,
    ensures
        final(world)@ == spec_splash_setup(old(world)@),
{
    world.spawn(None, Components { camera: true, ..Components::empty() });
    spawn_planet(world);
    spawn_continue(world);
    world.spawn(
        None,
        Components {
            splash_screen: true,
            image: Some(Image::TitleScreenBackground),
            ..Components::empty()
        },
    );
}

/// Takes the splash screen down: despawns every entity that belongs to it,
/// with everything attached to it.
pub fn splash_cleanup(world: &mut World)
    ensures
        final(world)@ == spec_splash_cleanup(old(world)@),
        has_none(final(world)@.entities, Query::SplashScreen),
        selected_ids(final(world)@.entities, Query::SplashScreen) == Seq::<u64>::empty(),
{
    let ids = world.query(Query::SplashScreen);
    proof {
        lemma_despawn_selected_leaves_none(world@.entities, Query::SplashScreen);
        lemma_none_selected(spec_splash_cleanup(world@).entities, Query::SplashScreen);
    }
    world.despawn_all_recursive(&ids);
}

/// What the splash screen does about a frame's input.
#[derive(Clone, Copy, PartialEq, Eq, Debug)]
pub struct Reaction {
    /// Whether the game is requested.
    pub start_game: bool,
    /// The look that the prompt takes, if the pointer moved.
    pub texture_index: Option<u32>,
}

/// What the splash screen does about a frame's input, given as plain values:
/// `presses` gamepad buttons went down, the pointer moved through
/// `cursor_moved`, and `released` says whether the primary mouse button came
/// up.
///
/// Any button press requests the game, and so does a pointer that passed
/// over the prompt in a frame in which the mouse button came up. The prompt
/// takes the look that the pointer's last position calls for: highlighted
/// over the prompt, default elsewhere.
pub fn react(presses: usize, released: bool, cursor_moved: &Vec<Point>) -> (reaction: Reaction)
    ensures
        reaction.start_game == wants_game(presses as nat, released, cursor_moved@),
        reaction.texture_index == spec_last_texture(cursor_moved@),
{
    let mut start_game = presses > 0;
    let mut texture_index: Option<u32> = None;
    let mut i: usize = 0;
    while i < cursor_moved.len()
        invariant
            i <= cursor_moved.len(),
            start_game == wants_game(presses as nat, released, cursor_moved@.take(i as int)),
            texture_index == spec_last_texture(cursor_moved@.take(i as int)),
        decreases cursor_moved.len() - i,
    {
        let ghost seen = cursor_moved@.take(i as int);
        let ghost next = cursor_moved@.take(i + 1);
        proof {
            assert(next.last() == cursor_moved@[i as int]);
            assert(forall|k: int| 0 <= k < seen.len() ==> seen[k] == next[k]);
            if wants_game(presses as nat, released, seen) && presses == 0 {
                let k = choose|k: int| 0 <= k < seen.len() && spec_over_prompt(seen[k]);
                assert(spec_over_prompt(next[k]));
            }
        }
        if over_prompt(cursor_moved[i]) {
            texture_index = Some(TEXTURE_HIGHLIGHTED);
            if released {
                start_game = true;
            }
            proof {
                assert(spec_over_prompt(next[i as int]));
            }
        } else {
            texture_index = Some(TEXTURE_DEFAULT);
            proof {
                if wants_game(presses as nat, released, next) && presses == 0 {
                    let k = choose|k: int| 0 <= k < next.len() && spec_over_prompt(next[k]);
                    assert(spec_over_prompt(seen[k]));
                }
            }
        }
        i += 1;
    }
    proof {
        assert(cursor_moved@.take(i as int) =~= cursor_moved@);
    }
    Reaction { start_game, texture_index }
}

/// The state machine after the splash screen acted on `reaction`.
pub open spec fn spec_apply_state(machine: MachineView, reaction: Reaction) -> MachineView {
    if reaction.start_game {
        machine.set(GameState::Game)
    } else {
        machine
    }
}

/// The world after the splash screen acted on `reaction`.
pub open spec fn spec_apply_world(world: WorldView, reaction: Reaction) -> WorldView {
    match reaction.texture_index {
        Some(texture_index) => world.with_texture_index(
            single_index(world.entities, Query::Continue),
            texture_index,
        ),
        None => world,
    }
}

/// Acts on what the splash screen decided: requests the game from the state
/// machine, passing over a refusal, and gives the prompt its look.
pub fn apply(reaction: Reaction, game_state: &mut StateMachine, world: &mut World)
    requires
        has_single(old(world)@.entities, Query::Continue),
    ensures
        final(game_state)@ == spec_apply_state(old(game_state)@, reaction),
        final(world)@ == spec_apply_world(old(world)@, reaction),
{
    if reaction.start_game {
        let _ = game_state.set(GameState::Game);
    }
    let prompt = world.single(Query::Continue);
    if let Some(texture_index) = reaction.texture_index {
        world.set_texture_index(prompt, texture_index);
    }
}

/// Lets the splash screen react to a frame's input, given as plain values:
/// decides as in [`react`] and acts as in [`apply`].
pub fn countdown(
    presses: usize,
    released: bool,
    cursor_moved: &Vec<Point>,
    game_state: &mut StateMachine,
    world: &mut World,
)
    requires
        has_single(old(world)@.entities, Query::Continue),
    ensures
        final(game_state)@ == spec_countdown_state(
            old(game_state)@,
            presses as nat,
            released,
            cursor_moved@,
        ),
        final(world)@ == spec_countdown_world(old(world)@, cursor_moved@),
{
    let reaction = react(presses, released, cursor_moved);
    apply(reaction, game_state, world);
}

/// What the splash screen does about a frame's input, read from the
/// engine's button state: the number of gamepad buttons that went down and
/// whether the left mouse button came up decide as in [`react`].
pub fn observe(
    button_inputs: &Input<GamepadButton>,
    mouse_button_input: &Input<MouseButton>,
    cursor_moved: &Vec<Point>,
) -> (reaction: Reaction)
    ensures
        reaction.start_game == wants_game(
            just_pressed_buttons(*button_inputs),
            primary_just_released(*mouse_button_input),
            cursor_moved@,
        ),
        reaction.texture_index == spec_last_texture(cursor_moved@),
{
    let presses = count_just_pressed(button_inputs);
    let released = left_just_released(mouse_button_input);
    react(presses, released, cursor_moved)
}

/// Lets the splash screen react to a frame's input, read from the engine's
/// button state: every gamepad button that went down requests the game, and
/// so does a pointer over the prompt when the left mouse button came up.
pub fn splash_countdown(
    button_inputs: &Input<GamepadButton>,
    game_state: &mut StateMachine,
    world: &mut World,
    cursor_moved: &Vec<Point>,
    mouse_button_input: &Input<MouseButton>,
)
    requires
        has_single(old(world)@.entities, Query::Continue),
    ensures
        final(game_state)@ == spec_countdown_state(
            old(game_state)@,
            just_pressed_buttons(*button_inputs),
            primary_just_released(*mouse_button_input),
            cursor_moved@,
        ),
        final(world)@ == spec_countdown_world(old(world)@, cursor_moved@),
{
    let reaction = observe(button_inputs, mouse_button_input, cursor_moved);
    apply(reaction, game_state, world);
}

} // verus!
