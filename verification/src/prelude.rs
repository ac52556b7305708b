//! The names that a user of the library needs first.

pub use crate::app::App;
pub use crate::input::Frame;
pub use crate::GameState;
