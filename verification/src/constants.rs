//! The dimensions of the field and the timings of a sprint.

use vstd::prelude::*;

verus! {

/// Number of columns of the playing field.
pub const BOARD_WIDTH: usize = 10;

/// Number of rows of the playing field; row 0 is the top row.
pub const BOARD_HEIGHT: usize = 20;

/// Delayed auto shift: milliseconds a horizontal key must be held before it repeats.
pub const DAS_DELAY: u64 = 70;

/// Auto repeat rate: milliseconds between repeated horizontal moves once charged.
pub const ARR_DELAY: u64 = 10;

/// Milliseconds between repeated soft-drop moves while Down is held.
pub const SOFT_DROP_DELAY: u64 = 0;

/// Milliseconds without key activity after which a held direction is released
/// when the terminal cannot report key releases.
pub const KEY_TIMEOUT: u64 = 100;

/// Number of lines to clear to finish a sprint.
pub const TARGET_LINES: u32 = 40;

/// Milliseconds a piece may rest on the ground before it locks.
pub const GROUND_TIME: u64 = 500;

/// Milliseconds between two steps of gravity.
pub const DROP_DELAY: u64 = 1000;

/// Milliseconds that each number of the countdown is shown.
pub const COUNTDOWN_INTERVAL: u64 = 1000;

/// The number at which the countdown starts.
pub const COUNTDOWN_START: u32 = 3;

/// Number of upcoming pieces that are kept ready and shown.
pub const NEXT_QUEUE_LEN: usize = 5;

} // verus!
