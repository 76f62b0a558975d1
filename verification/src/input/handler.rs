//! The three directions together, and what each key asks of the game.

use vstd::prelude::*;
use crate::constants::KEY_TIMEOUT;
use crate::game::bag::{is_draw, is_full_bag, lemma_draw_exists, Draw};
use crate::game::piece::{PieceType, Rotation};
use crate::game::model::{lemma_drop_exists, GameView};
use crate::game::state::{Game, GameState};
use crate::input::direction::{elapsed, elapsed_ms, DirectionState, InputDirection};

verus! {

/// The timing state of the three directions. Left and Right never drive the piece
/// together: pressing one releases the other.
#[derive(Debug, Clone, Copy, PartialEq, Eq, Structural)]
pub struct InputState {
    pub left: DirectionState,
    pub right: DirectionState,
    pub down: DirectionState,
    pub last_horizontal_dir: Option<InputDirection>,
    pub keyboard_enhancement_active: bool,
}

impl InputState {
    /// The timing state of one direction.
    pub open spec fn state_of(self, dir: InputDirection) -> DirectionState {
        match dir {
            InputDirection::Left => self.left,
            InputDirection::Right => self.right,
            InputDirection::Down => self.down,
        }
    }

    /// The same input state with one direction's timing state replaced.
    pub open spec fn with_state(self, dir: InputDirection, state: DirectionState) -> InputState {
        match dir {
            InputDirection::Left => InputState { left: state, ..self },
            InputDirection::Right => InputState { right: state, ..self },
            InputDirection::Down => InputState { down: state, ..self },
        }
    }

    /// Whether a direction is pressed.
    pub open spec fn pressed(self, dir: InputDirection) -> bool {
        self.state_of(dir).pressed
    }

    /// All three directions idle since `now`.
    pub open spec fn idle_at(now: u64) -> InputState {
        InputState {
            left: DirectionState::idle_at(now),
            right: DirectionState::idle_at(now),
            down: DirectionState::idle_at(now),
            last_horizontal_dir: None,
            keyboard_enhancement_active: false,
        }
    }

    /// The input state after `dir` was released at `now`.
    pub open spec fn released(self, dir: InputDirection, now: u64) -> InputState {
        let cleared = self.with_state(dir, self.state_of(dir).released_at(now));
        if self.last_horizontal_dir == Some(dir) {
            InputState { last_horizontal_dir: None, ..cleared }
        } else {
            cleared
        }
    }

    /// The input state after `dir` was pressed at `now`: a horizontal press first
    /// releases the opposite direction and is remembered as the last horizontal one.
    pub open spec fn pressed_at(self, dir: InputDirection, now: u64) -> InputState {
        let exclusive = match dir {
            InputDirection::Left => InputState {
                last_horizontal_dir: Some(InputDirection::Left),
                ..self.released(InputDirection::Right, now)
            },
            InputDirection::Right => InputState {
                last_horizontal_dir: Some(InputDirection::Right),
                ..self.released(InputDirection::Left, now)
            },
            InputDirection::Down => self,
        };
        exclusive.with_state(dir, DirectionState::pressed_at(now))
    }

    /// The input state after every direction was soft-reset at `now`.
    pub open spec fn das_reset_at(self, now: u64) -> InputState {
        InputState {
            left: self.left.das_reset_at(now),
            right: self.right.das_reset_at(now),
            down: self.down.das_reset_at(now),
            ..self
        }
    }

    /// Whether the liveness sweep at `now` gives a direction up: it is pressed and
    /// nothing has been heard of its key for more than the timeout.
    pub open spec fn timed_out(state: DirectionState, now: u64) -> bool {
        state.pressed && elapsed(now, state.last_update) > KEY_TIMEOUT
    }

    /// One direction after the liveness sweep at `now`.
    pub open spec fn swept(state: DirectionState, now: u64) -> DirectionState {
        if InputState::timed_out(state, now) {
            state.released_at(now)
        } else {
            state
        }
    }

    /// The input state after the liveness sweep at `now`. The sweep does nothing
    /// while the terminal reports key releases.
    pub open spec fn timeouts_checked(self, now: u64) -> InputState {
        if self.keyboard_enhancement_active {
            self
        } else {
            InputState {
                left: InputState::swept(self.left, now),
                right: InputState::swept(self.right, now),
                down: InputState::swept(self.down, now),
                ..self
            }
        }
    }

    /// The input state after a sign of life of `dir`'s key at `now`.
    pub open spec fn activity_at(self, dir: InputDirection, now: u64) -> InputState {
        self.with_state(dir, DirectionState { last_update: now, ..self.state_of(dir) })
    }

    /// All three directions idle since `now`.
    pub fn new(now: u64) -> (input: InputState)
        ensures
            input == InputState::idle_at(now),
    {
        InputState {
            left: DirectionState::new(now),
            right: DirectionState::new(now),
            down: DirectionState::new(now),
            last_horizontal_dir: None,
            keyboard_enhancement_active: false,
        }
    }

    /// The timing state of one direction.
    pub fn direction(&self, dir: InputDirection) -> (state: DirectionState)
        ensures
            state == self.state_of(dir),
    {
        match dir {
            InputDirection::Left => self.left,
            InputDirection::Right => self.right,
            InputDirection::Down => self.down,
        }
    }

    /// Replaces the timing state of one direction.
    pub fn set_direction(&mut self, dir: InputDirection, state: DirectionState)
        ensures
            *final(self) == old(self).with_state(dir, state),
    {
        match dir {
            InputDirection::Left => {
                self.left = state;
            },
            InputDirection::Right => {
                self.right = state;
            },
            InputDirection::Down => {
                self.down = state;
            },
        }
    }

    /// Presses a direction at `now`. Pressing Left or Right first releases the other
    /// of the two.
    pub fn press_direction(&mut self, dir: InputDirection, now: u64)
        ensures
            *final(self) == old(self).pressed_at(dir, now),
    {
        match dir {
            InputDirection::Left => {
                self.release_direction(InputDirection::Right, now);
                self.last_horizontal_dir = Some(InputDirection::Left);
            },
            InputDirection::Right => {
                self.release_direction(InputDirection::Left, now);
                self.last_horizontal_dir = Some(InputDirection::Right);
            },
            InputDirection::Down => {},
        }
        let mut state = self.direction(dir);
        state.press(now);
        self.set_direction(dir, state);
    }

    /// Releases a direction at `now`.
    pub fn release_direction(&mut self, dir: InputDirection, now: u64)
        ensures
            *final(self) == old(self).released(dir, now),
    {
        let mut state = self.direction(dir);
        state.release(now);
        self.set_direction(dir, state);
        if self.last_horizontal_dir == Some(dir) {
            self.last_horizontal_dir = None;
        }
    }

    /// Whether a direction is pressed.
    pub fn is_pressed(&self, dir: InputDirection) -> (pressed: bool)
        ensures
            pressed == self.pressed(dir),
    {
        self.direction(dir).pressed
    }

    /// Soft-resets every direction at `now`: what is pressed stays pressed and starts
    /// its auto-repeat cycle over.
    pub fn reset_das_states(&mut self, now: u64)
        ensures
            *final(self) == old(self).das_reset_at(now),
    {
        self.left.reset_das(now);
        self.right.reset_das(now);
        self.down.reset_das(now);
    }

    /// The liveness sweep at `now`: releases each pressed direction of whose key
    /// nothing has been heard for more than `KEY_TIMEOUT`. Does nothing while the
    /// terminal reports key releases.
    pub fn check_timeouts(&mut self, now: u64)
        ensures
            *final(self) == old(self).timeouts_checked(now),
    {
        if !self.keyboard_enhancement_active {
            if self.left.pressed && elapsed_ms(now, self.left.last_update) > KEY_TIMEOUT {
                self.left.release(now);
            }
            if self.right.pressed && elapsed_ms(now, self.right.last_update) > KEY_TIMEOUT {
                self.right.release(now);
            }
            if self.down.pressed && elapsed_ms(now, self.down.last_update) > KEY_TIMEOUT {
                self.down.release(now);
            }
        }
    }

    /// Notes a sign of life of a direction's key at `now`.
    pub fn update_key_activity(&mut self, dir: InputDirection, now: u64)
        ensures
            *final(self) == old(self).activity_at(dir, now),
    {
        let mut state = self.direction(dir);
        state.last_update = now;
        self.set_direction(dir, state);
    }
}

/// Pressing one horizontal direction while the other is held releases the other:
/// after Left then Right only Right is pressed, and after Right then Left only Left.
pub proof fn lemma_horizontal_press_is_exclusive(input: InputState, first: u64, second: u64)
    ensures
        !input.pressed_at(InputDirection::Left, first).pressed_at(
            InputDirection::Right,
            second,
        ).pressed(InputDirection::Left),
        input.pressed_at(InputDirection::Left, first).pressed_at(
            InputDirection::Right,
            second,
        ).pressed(InputDirection::Right),
        !input.pressed_at(InputDirection::Right, first).pressed_at(
            InputDirection::Left,
            second,
        ).pressed(InputDirection::Right),
        input.pressed_at(InputDirection::Right, first).pressed_at(
            InputDirection::Left,
            second,
        ).pressed(InputDirection::Left),
{
}

/// Whether at most one of Left and Right is pressed.
pub open spec fn horizontal_exclusive(input: InputState) -> bool {
    !(input.left.pressed && input.right.pressed)
}

/// After any press at most one of Left and Right is pressed, whatever held before;
/// and no other input operation presses a second horizontal direction.
pub proof fn lemma_horizontal_exclusive_is_kept(
    input: InputState,
    dir: InputDirection,
    now: u64,
)
    ensures
        dir != InputDirection::Down ==> horizontal_exclusive(input.pressed_at(dir, now)),
        horizontal_exclusive(input) ==> horizontal_exclusive(input.pressed_at(dir, now)),
        horizontal_exclusive(input) ==> horizontal_exclusive(input.released(dir, now)),
        horizontal_exclusive(input) ==> horizontal_exclusive(input.das_reset_at(now)),
        horizontal_exclusive(input) ==> horizontal_exclusive(input.timeouts_checked(now)),
        horizontal_exclusive(input) ==> horizontal_exclusive(input.activity_at(dir, now)),
{
}

/// A key as the engine tells keys apart.
#[derive(Debug, Clone, Copy, PartialEq, Eq, Structural)]
pub enum Key {
    Left,
    Right,
    Down,
    Up,
    Char(char),
    Other,
}

/// What happened to a key.
#[derive(Debug, Clone, Copy, PartialEq, Eq, Structural)]
pub enum KeyKind {
    Press,
    Repeat,
    Release,
}

/// What a key event asks of the engine.
#[derive(Debug, Clone, Copy, PartialEq, Eq, Structural)]
pub enum Command {
    /// A direction key went down or repeats.
    Press(InputDirection),
    /// A direction key went up.
    Release(InputDirection),
    Rotate(Rotation),
    HardDrop,
    /// Starts the countdown from `Ready`, drops the piece while the game is on.
    StartOrDrop,
    HoldPiece,
    Nothing,
}

/// Whether `c` is the letter `lower`, small or capital.
pub open spec fn is_letter(c: char, lower: char, upper: char) -> bool {
    c == lower || c == upper
}

/// The command of a key that went down or repeats.
pub open spec fn command_on_press(key: Key, shift: bool) -> Command {
    match key {
        Key::Left => Command::Press(InputDirection::Left),
        Key::Right => Command::Press(InputDirection::Right),
        Key::Down => Command::Press(InputDirection::Down),
        Key::Up => Command::Rotate(Rotation::Clockwise),
        Key::Char(c) => if is_letter(c, 'd', 'D') {
            Command::Rotate(Rotation::CounterClockwise)
        } else if is_letter(c, 'a', 'A') {
            Command::Rotate(Rotation::Half)
        } else if is_letter(c, 's', 'S') {
            Command::HardDrop
        } else if c == ' ' {
            Command::StartOrDrop
        } else if is_letter(c, 'h', 'H') || shift {
            Command::HoldPiece
        } else {
            Command::Nothing
        },
        Key::Other => if shift {
            Command::HoldPiece
        } else {
            Command::Nothing
        },
    }
}

/// The command of a key event. Of the releases only those of the direction keys count.
pub open spec fn command_for(key: Key, kind: KeyKind, shift: bool) -> Command {
    match kind {
        KeyKind::Release => match key {
            Key::Left => Command::Release(InputDirection::Left),
            Key::Right => Command::Release(InputDirection::Right),
            Key::Down => Command::Release(InputDirection::Down),
            _ => Command::Nothing,
        },
        _ => command_on_press(key, shift),
    }
}

/// The input state after the key of `dir` went down or repeated at `now`: a
/// direction that is not pressed is pressed; one that is pressed shows a sign of life.
pub open spec fn key_down(input: InputState, dir: InputDirection, now: u64) -> InputState {
    if input.pressed(dir) {
        input.activity_at(dir, now)
    } else {
        input.pressed_at(dir, now)
    }
}

/// The game after a command at `now`, where a hard drop moves the piece by
/// `distance` rows and the bag gives `draw`.
pub open spec fn commanded(
    game: GameView,
    command: Command,
    distance: int,
    draw: Draw,
    now: u64,
) -> GameView {
    match command {
        Command::Press(dir) => GameView { input: key_down(game.input, dir, now), ..game },
        Command::Release(dir) => GameView { input: game.input.released(dir, now), ..game },
        Command::Rotate(rotation) => game.rotated(rotation),
        Command::HardDrop => game.dropped(distance, now).locked(draw, now),
        Command::StartOrDrop => match game.state {
            GameState::Ready => game.countdown_started(now),
            GameState::Playing => game.dropped(distance, now).locked(draw, now),
            _ => game,
        },
        Command::HoldPiece => game.held_swapped(draw, now),
        Command::Nothing => game,
    }
}

/// Whether `after` is a game that `command` can make of `before` at `now`.
pub open spec fn is_commanded(
    before: GameView,
    command: Command,
    after: GameView,
    now: u64,
) -> bool {
    exists|distance: int, draw: Draw|
        #![trigger before.drops_by(distance), is_draw(before.bag, draw)]
        before.drops_by(distance) && is_draw(before.bag, draw) && after == commanded(
            before,
            command,
            distance,
            draw,
            now,
        )
}

/// What the loop around the engine does after a key event.
#[derive(Debug, Clone, Copy, PartialEq, Eq, Structural)]
pub enum LoopControl {
    Continue,
    Quit,
}

/// Whether a key event ends the program: `q` pressed.
pub open spec fn is_quit(key: Key, kind: KeyKind) -> bool {
    key matches Key::Char(c) && is_letter(c, 'q', 'Q') && kind == KeyKind::Press
}

/// Whether a key event is about the `q` or the `r` key, which the loop keeps to itself.
pub open spec fn is_loop_key(key: Key) -> bool {
    key matches Key::Char(c) && (is_letter(c, 'q', 'Q') || is_letter(c, 'r', 'R'))
}

/// Whether a key event restarts the game: `r` pressed.
pub open spec fn is_restart(key: Key, kind: KeyKind) -> bool {
    key matches Key::Char(c) && is_letter(c, 'r', 'R') && kind == KeyKind::Press
}

/// Tells the key events apart.
pub fn classify(key: Key, kind: KeyKind, shift: bool) -> (command: Command)
    ensures
        command == command_for(key, kind, shift),
{
    match kind {
        KeyKind::Release => match key {
            Key::Left => Command::Release(InputDirection::Left),
            Key::Right => Command::Release(InputDirection::Right),
            Key::Down => Command::Release(InputDirection::Down),
            _ => Command::Nothing,
        },
        _ => match key {
            Key::Left => Command::Press(InputDirection::Left),
            Key::Right => Command::Press(InputDirection::Right),
            Key::Down => Command::Press(InputDirection::Down),
            Key::Up => Command::Rotate(Rotation::Clockwise),
            Key::Char(c) => if c == 'd' || c == 'D' {
                Command::Rotate(Rotation::CounterClockwise)
            } else if c == 'a' || c == 'A' {
                Command::Rotate(Rotation::Half)
            } else if c == 's' || c == 'S' {
                Command::HardDrop
            } else if c == ' ' {
                Command::StartOrDrop
            } else if c == 'h' || c == 'H' || shift {
                Command::HoldPiece
            } else {
                Command::Nothing
            },
            Key::Other => if shift {
                Command::HoldPiece
            } else {
                Command::Nothing
            },
        },
    }
}

/// Carries out one command at `now`.
pub fn execute(game: &mut Game, command: Command, now: u64)
    requires
        old(game).wf(),
    ensures
        is_commanded(old(game)@, command, final(game)@, now),
        final(game).wf(),
{
    proof {
        lemma_draw_exists(game@.bag);
        lemma_drop_exists(game@);
    }
    match command {
        Command::Press(dir) => {
            if !game.input_state.is_pressed(dir) {
                game.input_state.press_direction(dir, now);
            } else {
                game.input_state.update_key_activity(dir, now);
            }
        },
        Command::Release(dir) => {
            game.input_state.release_direction(dir, now);
        },
        Command::Rotate(rotation) => {
            game.rotate(rotation);
        },
        Command::HardDrop => {
            game.hard_drop(now);
        },
        Command::StartOrDrop => {
            match game.game_state {
                GameState::Ready => {
                    game.start_countdown(now);
                },
                GameState::Playing => {
                    game.hard_drop(now);
                },
                _ => {},
            }
        },
        Command::HoldPiece => {
            game.hold_piece(now);
        },
        Command::Nothing => {},
    }
}

/// Handles one key event at `now`: direction keys drive the input timing, the
/// other keys turn, drop or hold the piece or start the countdown.
pub fn handle_input(game: &mut Game, key: Key, kind: KeyKind, shift: bool, now: u64)
    requires
        old(game).wf(),
    ensures
        is_commanded(old(game)@, command_for(key, kind, shift), final(game)@, now),
        final(game).wf(),
{
    let command = classify(key, kind, shift);
    execute(game, command, now);
}

/// Handles one key event for the loop around the engine. `q` pressed ends the
/// loop. `r` pressed restarts the game and tells it again whether the terminal
/// reports key releases. Other events of these two keys do nothing. Every other
/// key event goes to `handle_input`.
pub fn handle_key_event(
    game: &mut Game,
    key: Key,
    kind: KeyKind,
    shift: bool,
    keyboard_enhancement_active: bool,
    now: u64,
) -> (control: LoopControl)
    requires
        old(game).wf(),
    ensures
        control == LoopControl::Quit <==> is_quit(key, kind),
        is_restart(key, kind) ==> exists|order: Seq<PieceType>| #[trigger]
            is_full_bag(order) && final(game)@ == (GameView {
                input: InputState { keyboard_enhancement_active, ..InputState::idle_at(now) },
                ..GameView::restarted(order, now)
            }),
        is_loop_key(key) && !is_restart(key, kind) ==> final(game)@ == old(game)@,
        !is_loop_key(key) ==> is_commanded(
            old(game)@,
            command_for(key, kind, shift),
            final(game)@,
            now,
        ),
        final(game).wf(),
{
    match key {
        Key::Char(c) => {
            if c == 'q' || c == 'Q' {
                return if kind == KeyKind::Press {
                    LoopControl::Quit
                } else {
                    LoopControl::Continue
                };
            }
            if c == 'r' || c == 'R' {
                if kind == KeyKind::Press {
                    game.reset(now);
                    let ghost fresh = game@;
                    game.input_state.keyboard_enhancement_active = keyboard_enhancement_active;
                    proof {
                        let order = choose|order: Seq<PieceType>| #[trigger]
                            is_full_bag(order) && fresh == GameView::restarted(order, now);
                        assert(game@ == (GameView {
                            input: InputState {
                                keyboard_enhancement_active,
                                ..InputState::idle_at(now)
                            },
                            ..GameView::restarted(order, now)
                        }));
                    }
                }
                return LoopControl::Continue;
            }
        },
        _ => {},
    }
    handle_input(game, key, kind, shift, now);
    LoopControl::Continue
}

} // verus!
