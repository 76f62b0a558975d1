//! The engine of a timed forty-line sprint on a falling-block field: the pieces and
//! their turns, the board and its line clearing, the seven-piece bag, the timing of
//! held direction keys, and the game that ties them together. The engine reads no
//! clock: every operation that looks at the time takes it in milliseconds from its
//! caller.

pub mod constants;
pub mod game;
pub mod input;
