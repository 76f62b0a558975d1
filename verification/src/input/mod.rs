//! The timing of held direction keys, and the keys that drive the game.

pub mod direction;
pub mod handler;

pub use handler::handle_input;
