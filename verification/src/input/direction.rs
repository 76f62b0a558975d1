//! The auto-repeat cycle of one direction key: a first move at once, a second after
//! the shift delay, then one per repeat interval.

use vstd::prelude::*;
use crate::constants::{ARR_DELAY, DAS_DELAY, SOFT_DROP_DELAY};

verus! {

/// Time in milliseconds that has passed at `now` since `since`; zero where `since`
/// lies after `now`.
pub open spec fn elapsed(now: u64, since: u64) -> u64 {
    if now >= since {
        (now - since) as u64
    } else {
        0
    }
}

/// Computes `elapsed(now, since)`.
pub fn elapsed_ms(now: u64, since: u64) -> (ms: u64)
    ensures
        ms == elapsed(now, since),
{
    if now >= since {
        now - since
    } else {
        0
    }
}

/// The directions whose keys repeat while they are held.
#[derive(Debug, Clone, Copy, PartialEq, Eq, Hash, Structural)]
pub enum InputDirection {
    Left,
    Right,
    Down,
}

/// Where a direction stands in its auto-repeat cycle.
#[derive(Debug, Clone, Copy, PartialEq, Eq, Structural)]
pub enum Phase {
    /// Not pressed.
    Idle,
    /// Just pressed: the next tick moves once.
    Initial,
    /// The first move is done; waiting for the shift delay to pass.
    Charging,
    /// The shift delay has passed; moving at the repeat rate.
    Repeating,
}

/// The timing state of one direction. All times are in milliseconds on the clock
/// that the caller passes in.
#[derive(Debug, Clone, Copy, PartialEq, Eq, Structural)]
pub struct DirectionState {
    pub pressed: bool,
    pub das_timer: u64,
    pub arr_timer: u64,
    pub das_charged: bool,
    pub initial_move_done: bool,
    pub last_update: u64,
}

impl DirectionState {
    /// An idle direction whose timers start at `now`.
    pub open spec fn idle_at(now: u64) -> DirectionState {
        DirectionState {
            pressed: false,
            das_timer: now,
            arr_timer: now,
            das_charged: false,
            initial_move_done: false,
            last_update: now,
        }
    }

    /// A direction that was pressed at `now`: every timer restarts and the next tick
    /// owes the first move.
    pub open spec fn pressed_at(now: u64) -> DirectionState {
        DirectionState {
            pressed: true,
            das_timer: now,
            arr_timer: now,
            das_charged: false,
            initial_move_done: false,
            last_update: now,
        }
    }

    /// The direction after its key was released at `now`; the two timers keep their values.
    pub open spec fn released_at(self, now: u64) -> DirectionState {
        DirectionState {
            pressed: false,
            das_charged: false,
            initial_move_done: false,
            last_update: now,
            ..self
        }
    }

    /// The direction after a soft reset at `now`: a pressed direction starts over as
    /// if pressed at `now`, an idle one stays as it is.
    pub open spec fn das_reset_at(self, now: u64) -> DirectionState {
        if self.pressed {
            DirectionState::pressed_at(now)
        } else {
            self
        }
    }

    /// Where the direction stands in its auto-repeat cycle.
    pub open spec fn phase(self) -> Phase {
        if !self.pressed {
            Phase::Idle
        } else if !self.initial_move_done {
            Phase::Initial
        } else if !self.das_charged {
            Phase::Charging
        } else {
            Phase::Repeating
        }
    }

    /// Whether a tick at `now` moves the piece in this horizontal direction.
    pub open spec fn fires(self, now: u64) -> bool {
        match self.phase() {
            Phase::Idle => false,
            Phase::Initial => true,
            Phase::Charging => elapsed(now, self.das_timer) >= DAS_DELAY,
            Phase::Repeating => elapsed(now, self.arr_timer) >= ARR_DELAY,
        }
    }

    /// The direction after a horizontal tick at `now`.
    pub open spec fn ticked(self, now: u64) -> DirectionState {
        match self.phase() {
            Phase::Idle => self,
            Phase::Initial => DirectionState { initial_move_done: true, ..self },
            Phase::Charging => if self.fires(now) {
                DirectionState { das_charged: true, arr_timer: now, ..self }
            } else {
                self
            },
            Phase::Repeating => if self.fires(now) {
                DirectionState { arr_timer: now, ..self }
            } else {
                self
            },
        }
    }

    /// Whether a soft-drop tick at `now` moves the piece down. Soft drop has no
    /// charging phase: after the first move it repeats at its own rate.
    pub open spec fn soft_drop_fires(self, now: u64) -> bool {
        self.pressed && (!self.initial_move_done || elapsed(now, self.arr_timer)
            >= SOFT_DROP_DELAY)
    }

    /// The direction after a soft-drop tick at `now`.
    pub open spec fn soft_drop_ticked(self, now: u64) -> DirectionState {
        if !self.pressed {
            self
        } else if !self.initial_move_done {
            DirectionState { initial_move_done: true, ..self }
        } else if elapsed(now, self.arr_timer) >= SOFT_DROP_DELAY {
            DirectionState { arr_timer: now, ..self }
        } else {
            self
        }
    }

    /// An idle direction whose timers start at `now`.
    pub fn new(now: u64) -> (state: DirectionState)
        ensures
            state == DirectionState::idle_at(now),
    {
        DirectionState {
            pressed: false,
            das_timer: now,
            arr_timer: now,
            das_charged: false,
            initial_move_done: false,
            last_update: now,
        }
    }

    /// The key went down at `now`: every timer restarts and the next tick owes the
    /// first move.
    pub fn press(&mut self, now: u64)
        ensures
            *final(self) == DirectionState::pressed_at(now),
    {
        self.pressed = true;
        self.das_timer = now;
        self.arr_timer = now;
        self.das_charged = false;
        self.initial_move_done = false;
        self.last_update = now;
    }

    /// The key went up at `now`.
    pub fn release(&mut self, now: u64)
        ensures
            *final(self) == old(self).released_at(now),
    {
        self.pressed = false;
        self.das_charged = false;
        self.initial_move_done = false;
        self.last_update = now;
    }

    /// Soft reset at `now`: a pressed direction starts over as if pressed at `now` and
    /// stays pressed; an idle one stays as it is.
    pub fn reset_das(&mut self, now: u64)
        ensures
            *final(self) == old(self).das_reset_at(now),
    {
        if self.pressed {
            self.das_timer = now;
            self.arr_timer = now;
            self.das_charged = false;
            self.initial_move_done = false;
            self.last_update = now;
        }
    }

    /// One horizontal tick at `now`: advances the auto-repeat cycle and says whether
    /// the piece is to move one cell now.
    pub fn tick(&mut self, now: u64) -> (should_move: bool)
        ensures
            should_move == old(self).fires(now),
            *final(self) == old(self).ticked(now),
    {
        if !self.pressed {
            return false;
        }
        if !self.initial_move_done {
            self.initial_move_done = true;
            true
        } else if !self.das_charged {
            if elapsed_ms(now, self.das_timer) >= DAS_DELAY {
                self.das_charged = true;
                self.arr_timer = now;
                true
            } else {
                false
            }
        } else if elapsed_ms(now, self.arr_timer) >= ARR_DELAY {
            self.arr_timer = now;
            true
        } else {
            false
        }
    }

    /// One soft-drop tick at `now`: says whether the piece is to move down one cell now.
    pub fn tick_soft_drop(&mut self, now: u64) -> (should_move: bool)
        ensures
            should_move == old(self).soft_drop_fires(now),
            *final(self) == old(self).soft_drop_ticked(now),
    {
        if !self.pressed {
            return false;
        }
        if !self.initial_move_done {
            self.initial_move_done = true;
            true
        } else if elapsed_ms(now, self.arr_timer) >= SOFT_DROP_DELAY {
            self.arr_timer = now;
            true
        } else {
            false
        }
    }
}

/// A direction that is held moves the piece on the first tick after the press, then
/// not before the shift delay has passed, then once per repeat interval.
pub proof fn lemma_press_then_ticks(pressed: u64, first: u64, second: u64)
    requires
        pressed <= first <= second,
    ensures
        DirectionState::pressed_at(pressed).phase() == Phase::Initial,
        DirectionState::pressed_at(pressed).fires(first),
        DirectionState::pressed_at(pressed).ticked(first).phase() == Phase::Charging,
        DirectionState::pressed_at(pressed).ticked(first).fires(second) <==> second - pressed
            >= DAS_DELAY,
{
}

} // verus!
