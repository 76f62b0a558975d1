//! The field, the pieces, the bag and the game.

pub mod bag;
pub mod board;
pub mod laws;
pub mod model;
pub mod piece;
pub mod snapshot;
pub mod state;
pub mod validate;

pub use board::Cell;
pub use state::Game;
