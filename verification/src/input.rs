//! A frame's input, and the two questions that the game asks of the
//! engine's button state.

use crate::gameplay::Stick;
use crate::geometry::Point;
use bevy::input::gamepad::GamepadButton;
use bevy::input::mouse::MouseButton;
use bevy::input::Input;
use std::hash::Hash;
use vstd::prelude::*;

verus! {

/// The engine's record of which buttons of one kind are down, which went
/// down since the last frame and which came up since then. Nothing is known
/// of a value but what the functions below say.
#[verifier::external_type_specification]
#[verifier::external_body]
#[verifier::reject_recursive_types(T)]
pub struct ExInput<T: Copy + Eq + Hash + Send + Sync + 'static>(Input<T>);

/// A button of a gamepad, as the engine names it.
#[verifier::external_type_specification]
#[verifier::external_body]
pub struct ExGamepadButton(GamepadButton);

/// A button of the mouse, as the engine names it.
#[verifier::external_type_specification]
#[verifier::external_body]
pub struct ExMouseButton(MouseButton);

/// How many gamepad buttons `input` records as having gone down since the
/// last frame.
pub uninterp spec fn just_pressed_buttons(input: Input<GamepadButton>) -> nat;

/// Whether `input` records the left mouse button as having come up since
/// the last frame.
pub uninterp spec fn primary_just_released(input: Input<MouseButton>) -> bool;

/// Calls `Input::get_just_pressed` and takes the length of the iterator it
/// returns, which walks the set of buttons that went down since the last
/// frame. The contract gives that number a name and claims nothing else.
#[verifier::external_body]
pub(crate) fn count_just_pressed(input: &Input<GamepadButton>) -> (n: usize)
    ensures
        n == just_pressed_buttons(*input),
{
    input.get_just_pressed().len()
}

/// Calls `Input::just_released` with `MouseButton::Left`, which tells
/// whether that button is in the set of buttons that came up since the last
/// frame. The contract gives the answer a name and claims nothing else.
#[verifier::external_body]
pub(crate) fn left_just_released(input: &Input<MouseButton>) -> (b: bool)
    ensures
        b == primary_just_released(*input),
{
    input.just_released(MouseButton::Left)
}

/// What a frame brings: the engine's button state, where the pointer moved,
/// how much time passed and where the stick stands.
pub struct Frame<'a> {
    /// The gamepad buttons.
    pub button_inputs: &'a Input<GamepadButton>,
    /// The mouse buttons.
    pub mouse_button_input: &'a Input<MouseButton>,
    /// The pointer's positions during the frame, in window coordinates, in
    /// the order in which it passed through them.
    pub cursor_moved: &'a Vec<Point>,
    /// The time since the last frame, in microseconds.
    pub elapsed_micros: u32,
    /// The movement input, before the dead zone is applied.
    pub stick: Stick,
}

/// The mathematical content of a [`Frame`].
pub struct FrameView {
    /// How many gamepad buttons went down.
    pub presses: nat,
    /// Whether the primary mouse button came up.
    pub released: bool,
    /// The pointer's positions during the frame.
    pub cursor_moved: Seq<Point>,
    /// The time since the last frame, in microseconds.
    pub elapsed_micros: u32,
    /// The movement input, before the dead zone is applied.
    pub stick: Stick,
}

impl<'a> View for Frame<'a> {
    type V = FrameView;

    open spec fn view(&self) -> FrameView {
        FrameView {
            presses: just_pressed_buttons(*self.button_inputs),
            released: primary_just_released(*self.mouse_button_input),
            cursor_moved: self.cursor_moved@,
            elapsed_micros: self.elapsed_micros,
            stick: self.stick,
        }
    }
}

} // verus!
