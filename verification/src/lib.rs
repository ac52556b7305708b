//! A small game in two states: a splash screen that hands over to a playable
//! scene.
//!
//! [`state`] holds the state machine that decides which lifecycle callbacks
//! run on a tick, [`world`] the entities of the scene and [`despawn`] what
//! goes when entities are despawned. [`splash`] and [`gameplay`] hold the
//! callbacks of the two states, [`input`] what a frame brings, and [`app`]
//! puts them together: one tick of the whole game, and what holds of every
//! game however it is played.

pub mod app;
pub mod despawn;
pub mod gameplay;
pub mod geometry;
pub mod input;
pub mod prelude;
pub mod splash;
pub mod state;
pub mod world;

use vstd::prelude::*;

verus! {

/// The phase the game is in.
#[derive(Clone, Copy, PartialEq, Eq, Structural, Debug, Hash)]
pub enum GameState {
    /// The title screen shown at start-up.
    Splash,
    /// The playable scene.
    Game,
}

/// The state a freshly started game is in.
pub fn initial_state() -> (s: GameState)
    ensures
        s == GameState::Splash,
{
    GameState::Splash
}

} // verus!
