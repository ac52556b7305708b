//! The playable scene: the player's character, how the stick moves it, and
//! the camera that follows it.

use crate::geometry::Point;
use crate::world::{has_single, single_index, Components, Image, Query, World, WorldView};
use vstd::prelude::*;

verus! {

/// How far the character moves in a second at full deflection, in units.
pub const MOVE_SPEED: i64 = 200;

/// Full deflection of the stick along an axis, in thousandths.
pub const FULL_DEFLECTION: i32 = 1000;

/// The stick values from here up to `DEADZONE_UPPERBOUND` count as zero.
pub const DEADZONE_LOWERBOUND: i32 = -125;

/// The stick values from `DEADZONE_LOWERBOUND` up to here count as zero.
pub const DEADZONE_UPPERBOUND: i32 = 125;

/// The lower end of the dead zone before anything is configured.
pub const DEFAULT_DEADZONE_LOWERBOUND: i32 = -50;

/// The upper end of the dead zone before anything is configured.
pub const DEFAULT_DEADZONE_UPPERBOUND: i32 = 50;

/// The deflection of the stick along both axes, in thousandths of full
/// deflection.
#[derive(Clone, Copy, PartialEq, Eq, Structural, Debug, Hash)]
pub struct Stick {
    pub x: i32,
    pub y: i32,
}

/// The range of stick values that count as zero, in thousandths of full
/// deflection.
#[derive(Clone, Copy, PartialEq, Eq, Structural, Debug, Hash)]
pub struct GamepadSettings {
    pub deadzone_lowerbound: i32,
    pub deadzone_upperbound: i32,
}

/// `value`, or zero if it lies in the dead zone.
pub open spec fn spec_filter_axis(settings: GamepadSettings, value: i32) -> i32 {
    if settings.deadzone_lowerbound <= value <= settings.deadzone_upperbound {
        0
    } else {
        value
    }
}

/// `value`, cut to what full deflection allows.
pub open spec fn spec_clamp_axis(value: i32) -> i32 {
    if value < -FULL_DEFLECTION {
        (-FULL_DEFLECTION) as i32
    } else if value > FULL_DEFLECTION {
        FULL_DEFLECTION
    } else {
        value
    }
}

/// `value`, cut to what a coordinate can hold.
pub open spec fn spec_saturate(value: int) -> i64 {
    if value < i64::MIN {
        i64::MIN
    } else if value > i64::MAX {
        i64::MAX
    } else {
        value as i64
    }
}

/// Where a coordinate is after `elapsed_micros` microseconds of the stick
/// held at `axis`: it moves by speed times time times deflection, which in
/// billionths of a unit is `MOVE_SPEED * elapsed_micros * axis`, with the
/// deflection cut to full deflection.
pub open spec fn spec_moved_coordinate(coordinate: i64, elapsed_micros: u32, axis: i32) -> i64 {
    spec_saturate(coordinate + MOVE_SPEED * elapsed_micros * spec_clamp_axis(axis))
}

/// Where the character is after `elapsed_micros` microseconds of the stick
/// held at `stick`.
pub open spec fn spec_moved(translation: Point, elapsed_micros: u32, stick: Stick) -> Point {
    Point {
        x: spec_moved_coordinate(translation.x, elapsed_micros, stick.x),
        y: spec_moved_coordinate(translation.y, elapsed_micros, stick.y),
    }
}

/// The player's character.
pub open spec fn spec_player() -> Components {
    Components { player: true, image: Some(Image::LittleGuy), ..Components::spec_empty() }
}

/// The ground.
pub open spec fn spec_grass() -> Components {
    Components { image: Some(Image::GrassSquare), ..Components::spec_empty() }
}

/// The world after the playable scene was set up: the character was added
/// at the origin, then the ground.
pub open spec fn spec_setup(world: WorldView) -> WorldView {
    world.spawn(None, spec_player()).spawn(None, spec_grass())
}

/// The world after the stick moved the character.
pub open spec fn spec_movement(world: WorldView, elapsed_micros: u32, stick: Stick) -> WorldView {
    let player = single_index(world.entities, Query::Player);
    if stick.x == 0 && stick.y == 0 {
        world
    } else {
        world.with_translation(
            player,
            spec_moved(world.entities[player].components.translation, elapsed_micros, stick),
        )
    }
}

/// The world after the camera moved to where the character is.
pub open spec fn spec_camera_follow(world: WorldView) -> WorldView {
    world.with_translation(
        single_index(world.entities, Query::Camera),
        world.entities[single_index(world.entities, Query::Player)].components.translation,
    )
}

impl GamepadSettings {
    /// Settings with the dead zone a gamepad has before anything is
    /// configured: a twentieth of full deflection to both sides.
    pub open spec fn spec_new() -> GamepadSettings {
        GamepadSettings {
            deadzone_lowerbound: DEFAULT_DEADZONE_LOWERBOUND,
            deadzone_upperbound: DEFAULT_DEADZONE_UPPERBOUND,
        }
    }

    /// The dead zone that `configure_gamepads` sets.
    pub open spec fn spec_configured() -> GamepadSettings {
        GamepadSettings {
            deadzone_lowerbound: DEADZONE_LOWERBOUND,
            deadzone_upperbound: DEADZONE_UPPERBOUND,
        }
    }

    /// Settings with the dead zone a gamepad has before anything is
    /// configured.
    pub fn new() -> (settings: GamepadSettings)
        ensures
            settings == GamepadSettings::spec_new(),
    {
        GamepadSettings {
            deadzone_lowerbound: DEFAULT_DEADZONE_LOWERBOUND,
            deadzone_upperbound: DEFAULT_DEADZONE_UPPERBOUND,
        }
    }

    /// `value`, or zero if it lies in the dead zone.
    pub fn filter_axis(&self, value: i32) -> (filtered: i32)
        ensures
            filtered == spec_filter_axis(*self, value),
    {
        if self.deadzone_lowerbound <= value && value <= self.deadzone_upperbound {
            0
        } else {
            value
        }
    }

    /// The stick as the game sees it: each axis on its own, zero inside the
    /// dead zone.
    pub fn filter(&self, stick: Stick) -> (filtered: Stick)
        ensures
            filtered.x == spec_filter_axis(*self, stick.x),
            filtered.y == spec_filter_axis(*self, stick.y),
    {
        Stick { x: self.filter_axis(stick.x), y: self.filter_axis(stick.y) }
    }
}

/// Widens the dead zone of every axis to an eighth of full deflection, so
/// that a stick at rest reads as zero.
pub fn configure_gamepads(settings: &mut GamepadSettings)
    ensures
        *final(settings) == GamepadSettings::spec_configured(),
{
    settings.deadzone_lowerbound = DEADZONE_LOWERBOUND;
    settings.deadzone_upperbound = DEADZONE_UPPERBOUND;
}

/// `value`, cut to what full deflection allows.
pub fn clamp_axis(value: i32) -> (clamped: i32)
    ensures
        clamped == spec_clamp_axis(value),
{
    if value < -FULL_DEFLECTION {
        -FULL_DEFLECTION
    } else if value > FULL_DEFLECTION {
        FULL_DEFLECTION
    } else {
        value
    }
}

/// Where a coordinate is after `elapsed_micros` microseconds of the stick
/// held at `axis`.
pub fn moved_coordinate(coordinate: i64, elapsed_micros: u32, axis: i32) -> (moved: i64)
    ensures
        moved == spec_moved_coordinate(coordinate, elapsed_micros, axis),
{
    let deflection: i64 = clamp_axis(axis) as i64;
    let per_deflection: i64 = MOVE_SPEED * (elapsed_micros as i64);
    assert(-858_993_459_000_000 <= per_deflection * deflection <= 858_993_459_000_000)
        by (nonlinear_arith)
        requires
            0 <= per_deflection <= 858_993_459_000,
            -1000 <= deflection <= 1000,
    ;
    let step: i64 = per_deflection * deflection;
    assert(step == MOVE_SPEED * elapsed_micros * spec_clamp_axis(axis)) by (nonlinear_arith)
        requires
            step == per_deflection * deflection,
            per_deflection == MOVE_SPEED * elapsed_micros,
            deflection == spec_clamp_axis(axis),
    ;
    if step > 0 && coordinate > i64::MAX - step {
        i64::MAX
    } else if step < 0 && coordinate < i64::MIN - step {
        i64::MIN
    } else {
        coordinate + step
    }
}

/// Sets the playable scene up: the player's character at the origin, and
/// the ground.
pub fn setup(world: &mut World)
    requires
        old(world)@.next_id <= u64::MAX - 2,
    ensures
        final(world)@ == spec_setup(old(world)@),
{
    world.spawn(
        None,
        Components { player: true, image: Some(Image::LittleGuy), ..Components::empty() },
    );
    world.spawn(None, Components { image: Some(Image::GrassSquare), ..Components::empty() });
}

/// Moves the character by speed times elapsed time times the stick's
/// deflection; a stick at rest moves nothing.
pub fn movement(world: &mut World, elapsed_micros: u32, stick: Stick)
    requires
        has_single(old(world)@.entities, Query::Player),
    ensures
        final(world)@ == spec_movement(old(world)@, elapsed_micros, stick),
{
    let player = world.single(Query::Player);
    if stick.x != 0 || stick.y != 0 {
        let translation = world.get(player).components.translation;
        let moved = Point {
            x: moved_coordinate(translation.x, elapsed_micros, stick.x),
            y: moved_coordinate(translation.y, elapsed_micros, stick.y),
        };
        world.set_translation(player, moved);
    }
}

/// Puts the camera where the character is.
pub fn camera_follow(world: &mut World)
    requires
        has_single(old(world)@.entities, Query::Camera),
        has_single(old(world)@.entities, Query::Player),
    ensures
        final(world)@ == spec_camera_follow(old(world)@),
{
    let camera = world.single(Query::Camera);
    let player = world.single(Query::Player);
    let translation = world.get(player).components.translation;
    world.set_translation(camera, translation);
}

} // verus!
