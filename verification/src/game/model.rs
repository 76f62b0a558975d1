//! The mathematical model of a game and of each thing that can be asked of it. What
//! the bag gives is not decided here: where an operation draws a piece type, the
//! model takes the draw as an argument.

use vstd::prelude::*;
use crate::constants::{
    BOARD_HEIGHT, BOARD_WIDTH, COUNTDOWN_INTERVAL, COUNTDOWN_START, DROP_DELAY, GROUND_TIME,
    NEXT_QUEUE_LEN, TARGET_LINES,
};
use crate::game::bag::{is_draw, is_full_bag, lemma_draw_keeps_distinct, Draw, BAG_SIZE};
use crate::game::board::{
    cleared, empty_rows, fits, full_row_count, is_board, is_settled, lemma_cleared_rows, stamped,
    Cell,
};
use crate::game::piece::{
    lemma_spawn_wf, PieceType, PieceView, Rotation, MAX_PIECE_SIZE, SPAWN_X, SPAWN_Y,
};
use crate::game::state::GameState;
use crate::input::direction::{elapsed, InputDirection};
use crate::input::handler::InputState;

verus! {

/// The mathematical model of a game.
#[verifier::ext_equal]
pub struct GameView {
    pub rows: Seq<Seq<Cell>>,
    pub piece: Option<PieceView>,
    pub queue: Seq<PieceView>,
    pub held: Option<PieceView>,
    pub can_hold: bool,
    pub lines_cleared: u32,
    pub lines_remaining: u32,
    pub drop_timer: u64,
    pub input: InputState,
    pub state: GameState,
    pub countdown_timer: u64,
    pub game_timer: Option<u64>,
    pub final_time: Option<u64>,
    pub ground_timer: Option<u64>,
    pub bag: Seq<PieceType>,
}

/// The offsets that a rotation tries, in this order, where the turned piece does
/// not fit in place.
pub open spec fn kicks(piece_type: PieceType) -> Seq<(int, int)> {
    match piece_type {
        PieceType::I => seq![(1, 0), (-1, 0), (2, 0), (-2, 0), (0, -1)],
        _ => seq![(1, 0), (-1, 0), (0, -1), (1, -1), (-1, -1)],
    }
}

/// The positions that a rotation tries, in this order: the turned piece in place,
/// then the turned piece moved by each kick.
pub open spec fn rotation_candidates(piece: PieceView, rotation: Rotation) -> Seq<PieceView> {
    let turned = piece.rotated(rotation);
    let offsets = kicks(piece.piece_type);
    Seq::new(
        1 + offsets.len(),
        |i: int|
            if i == 0 {
                turned
            } else {
                turned.translated(offsets[i - 1].0, offsets[i - 1].1)
            },
    )
}

/// The queue of a game made from a full bag in the given order: fresh pieces of the
/// last five types of the bag, the last type first.
pub open spec fn initial_queue(order: Seq<PieceType>) -> Seq<PieceView> {
    Seq::new(NEXT_QUEUE_LEN as nat, |i: int| PieceView::spawn(order[BAG_SIZE - 1 - i]))
}

/// What is left in the bag of a game made from a full bag in the given order: the
/// first two types.
pub open spec fn initial_bag(order: Seq<PieceType>) -> Seq<PieceType> {
    order.take(BAG_SIZE - NEXT_QUEUE_LEN)
}

/// The sum of two line counts, held at the largest value that the counter can show.
pub open spec fn saturating_sum(count: u32, lines: int) -> u32 {
    if count + lines > u32::MAX {
        u32::MAX
    } else {
        (count + lines) as u32
    }
}

impl GameView {
    /// Whether the piece may stand at the candidate position: the candidate is well
    /// formed, so its coordinates can be stored, and it fits the board.
    pub open spec fn accepts(self, candidate: PieceView) -> bool {
        candidate.wf() && fits(self.rows, candidate)
    }

    /// The game ends at `now`: the run time is frozen if the run had started. A game
    /// that is finished stays as it is, so its run time is taken only once.
    pub open spec fn finished(self, now: u64) -> GameView {
        if self.state == GameState::Finished {
            self
        } else {
            GameView {
                state: GameState::Finished,
                final_time: match self.game_timer {
                    Some(started) => Some(elapsed(now, started)),
                    None => self.final_time,
                },
                ..self
            }
        }
    }

    /// The countdown starts from `Ready`; in any other state nothing happens.
    pub open spec fn countdown_started(self, now: u64) -> GameView {
        if self.state == GameState::Ready {
            GameView { state: GameState::Countdown(COUNTDOWN_START), countdown_timer: now, ..self }
        } else {
            self
        }
    }

    /// The queue after its head left and a piece of the drawn type joined at the end.
    pub open spec fn queue_advanced(self, draw: Draw) -> Seq<PieceView> {
        self.queue.skip(1).push(PieceView::spawn(draw.piece_type))
    }

    /// The head of the queue becomes the falling piece. Only while playing; the game
    /// ends where the new piece does not fit.
    pub open spec fn spawned(self, draw: Draw, now: u64) -> GameView {
        if self.state != GameState::Playing {
            self
        } else {
            let entered = GameView {
                piece: Some(self.queue[0]),
                queue: self.queue_advanced(draw),
                bag: draw.rest,
                can_hold: true,
                ground_timer: None,
                ..self
            };
            if fits(self.rows, self.queue[0]) {
                entered
            } else {
                entered.finished(now)
            }
        }
    }

    /// The run starts at `now` with the first piece.
    pub open spec fn game_started(self, draw: Draw, now: u64) -> GameView {
        GameView { state: GameState::Playing, game_timer: Some(now), ..self }.spawned(draw, now)
    }

    /// Whether the falling piece can be moved by `(dx, dy)`.
    pub open spec fn can_move(self, dx: int, dy: int) -> bool {
        &&& self.state == GameState::Playing
        &&& self.piece is Some
        &&& self.accepts(self.piece->0.translated(dx, dy))
    }

    /// The ground timer starts at `now` unless it is running.
    pub open spec fn grounded(self, now: u64) -> GameView {
        if self.ground_timer is None {
            GameView { ground_timer: Some(now), ..self }
        } else {
            self
        }
    }

    /// An attempt to move the falling piece by `(dx, dy)`. A move that succeeds and
    /// goes sideways or down clears the ground timer; a move down that fails starts it.
    pub open spec fn moved(self, dx: int, dy: int, now: u64) -> GameView {
        if self.state != GameState::Playing || self.piece is None {
            self
        } else if self.can_move(dx, dy) {
            GameView {
                piece: Some(self.piece->0.translated(dx, dy)),
                ground_timer: if dx != 0 || dy > 0 {
                    None
                } else {
                    self.ground_timer
                },
                ..self
            }
        } else if dy > 0 {
            self.grounded(now)
        } else {
            self
        }
    }

    /// The first of the candidates from index `from` on that the board accepts.
    pub open spec fn first_accepted(self, candidates: Seq<PieceView>, from: int) -> Option<
        PieceView,
    >
        decreases candidates.len() - from,
    {
        if from < 0 || from >= candidates.len() {
            None
        } else if self.accepts(candidates[from]) {
            Some(candidates[from])
        } else {
            self.first_accepted(candidates, from + 1)
        }
    }

    /// Where a rotation takes the falling piece, if anywhere.
    pub open spec fn rotation_target(self, rotation: Rotation) -> Option<PieceView> {
        match self.piece {
            Some(piece) => self.first_accepted(rotation_candidates(piece, rotation), 0),
            None => None,
        }
    }

    /// An attempt to turn the falling piece.
    pub open spec fn rotated(self, rotation: Rotation) -> GameView {
        match self.rotation_target(rotation) {
            Some(target) => GameView { piece: Some(target), ..self },
            None => self,
        }
    }

    /// Whether `at` is the first offset from `from` on at which the piece, moved
    /// straight down by it, is not accepted.
    pub open spec fn blocked_at(self, piece: PieceView, from: int, at: int) -> bool {
        &&& from <= at
        &&& forall|m: int| from <= m < at ==> self.accepts(#[trigger] piece.translated(0, m))
        &&& !self.accepts(piece.translated(0, at))
    }

    /// Whether holding does anything: it is allowed, the game is on, and a piece falls.
    pub open spec fn hold_allowed(self) -> bool {
        self.can_hold && self.state == GameState::Playing && self.piece is Some
    }

    /// The falling piece goes into hold, back at the spawn position and turned as it
    /// is; the piece that was held, or else the head of the queue, falls in its
    /// place. Holding is then off until the next piece spawns. The game ends where
    /// the new falling piece does not fit.
    pub open spec fn held_swapped(self, draw: Draw, now: u64) -> GameView {
        if !self.hold_allowed() {
            self
        } else {
            let swapped = match self.held {
                Some(held) => GameView { piece: Some(held), ..self },
                None => GameView {
                    piece: Some(self.queue[0]),
                    queue: self.queue_advanced(draw),
                    bag: draw.rest,
                    ..self
                },
            };
            let stored = GameView {
                held: Some(self.piece->0.at_spawn()),
                can_hold: false,
                ..swapped
            };
            if fits(stored.rows, stored.piece->0) {
                stored
            } else {
                stored.finished(now)
            }
        }
    }

    /// `lines` more lines are cleared; the game ends when none remains.
    pub open spec fn lines_counted(self, lines: int, now: u64) -> GameView {
        let counted = GameView {
            lines_cleared: saturating_sum(self.lines_cleared, lines),
            lines_remaining: if lines >= self.lines_remaining {
                0
            } else {
                (self.lines_remaining - lines) as u32
            },
            ..self
        };
        if counted.lines_remaining == 0 {
            counted.finished(now)
        } else {
            counted
        }
    }

    /// The board with the falling piece, if there is one, stamped onto it.
    pub open spec fn rows_with_piece(self) -> Seq<Seq<Cell>> {
        match self.piece {
            Some(piece) => stamped(self.rows, piece),
            None => self.rows,
        }
    }

    /// The falling piece becomes part of the board, full rows are cleared and
    /// counted, every direction is soft-reset, the next piece spawns and the gravity
    /// timer restarts.
    pub open spec fn locked(self, draw: Draw, now: u64) -> GameView {
        let merged = self.rows_with_piece();
        let settled = GameView { rows: cleared(merged), piece: None, ..self }.lines_counted(
            full_row_count(merged),
            now,
        );
        let released = GameView { input: settled.input.das_reset_at(now), ..settled };
        GameView { drop_timer: now, ..released.spawned(draw, now) }
    }

    /// The falling piece `distance` rows further down, as a hard drop leaves it
    /// before it locks. Each row that the piece fell has cleared the ground timer,
    /// and the move that failed at the end has started it: after a fall the timer
    /// runs from `now`, and without one it runs from `now` unless it ran before.
    pub open spec fn dropped(self, distance: int, now: u64) -> GameView {
        if self.state == GameState::Playing && self.piece is Some {
            GameView {
                piece: Some(self.piece->0.translated(0, distance)),
                ground_timer: if distance > 0 {
                    None
                } else {
                    self.ground_timer
                },
                ..self
            }.grounded(now)
        } else {
            self
        }
    }

    /// Whether a hard drop moves the falling piece down by `distance` rows.
    pub open spec fn drops_by(self, distance: int) -> bool {
        if self.state == GameState::Playing && self.piece is Some {
            self.blocked_at(self.piece->0, 1, distance + 1)
        } else {
            distance == 0
        }
    }

    /// One horizontal direction ticks, and moves the piece if its tick fires.
    pub open spec fn movement_handled(
        self,
        dir: InputDirection,
        dx: int,
        dy: int,
        now: u64,
    ) -> GameView {
        let state = self.input.state_of(dir);
        let ticked = GameView { input: self.input.with_state(dir, state.ticked(now)), ..self };
        if state.fires(now) {
            ticked.moved(dx, dy, now)
        } else {
            ticked
        }
    }

    /// An attempt to move the falling piece down one row that starts the ground
    /// timer when it fails, also where no piece falls.
    pub open spec fn stepped_down(self, now: u64) -> GameView {
        if self.can_move(0, 1) {
            self.moved(0, 1, now)
        } else {
            self.moved(0, 1, now).grounded(now)
        }
    }

    /// The Down direction ticks, and moves the piece down if its tick fires.
    pub open spec fn soft_drop_handled(self, now: u64) -> GameView {
        let state = self.input.down;
        let ticked = GameView {
            input: InputState { down: state.soft_drop_ticked(now), ..self.input },
            ..self
        };
        if state.soft_drop_fires(now) {
            ticked.stepped_down(now)
        } else {
            ticked
        }
    }

    /// The liveness sweep, then Left, Right and Down in this order.
    pub open spec fn inputs_applied(self, now: u64) -> GameView {
        GameView {
            input: self.input.timeouts_checked(now),
            ..self
        }.movement_handled(InputDirection::Left, -1, 0, now).movement_handled(
            InputDirection::Right,
            1,
            0,
            now,
        ).soft_drop_handled(now)
    }

    /// Whether the falling piece has rested on the ground for the whole lock delay.
    pub open spec fn lock_due(self, now: u64) -> bool {
        self.ground_timer is Some && elapsed(now, self.ground_timer->0) >= GROUND_TIME
    }

    /// Gravity pulls the piece down one row if its interval has passed.
    pub open spec fn gravity_applied(self, now: u64) -> GameView {
        if elapsed(now, self.drop_timer) >= DROP_DELAY {
            GameView { drop_timer: now, ..self }.stepped_down(now)
        } else {
            self
        }
    }

    /// One step of the countdown, if its interval has passed: the number goes down,
    /// and after 1 the run starts.
    pub open spec fn counted_down(self, count: u32, draw: Draw, now: u64) -> GameView {
        if elapsed(now, self.countdown_timer) >= COUNTDOWN_INTERVAL {
            if count > 1 {
                GameView {
                    state: GameState::Countdown((count - 1) as u32),
                    countdown_timer: now,
                    ..self
                }
            } else {
                self.game_started(draw, now)
            }
        } else {
            self
        }
    }

    /// One frame at `now`. While playing: the inputs are applied; then a piece whose
    /// lock delay has passed locks, and otherwise gravity acts.
    pub open spec fn updated(self, draw: Draw, now: u64) -> GameView {
        match self.state {
            GameState::Ready => self,
            GameState::Finished => self,
            GameState::Countdown(count) => self.counted_down(count, draw, now),
            GameState::Playing => {
                let steered = self.inputs_applied(now);
                if steered.lock_due(now) {
                    steered.locked(draw, now)
                } else {
                    steered.gravity_applied(now)
                }
            },
        }
    }

    /// A game before its first piece, made at `now` from a full bag in the given
    /// order: the last five types of the bag, last first, wait in the queue, and
    /// the first two are left in the bag.
    pub open spec fn initial(order: Seq<PieceType>, now: u64) -> GameView {
        GameView {
            rows: empty_rows(),
            piece: None,
            queue: initial_queue(order),
            held: None,
            can_hold: true,
            lines_cleared: 0,
            lines_remaining: TARGET_LINES,
            drop_timer: now,
            input: InputState::idle_at(now),
            state: GameState::Ready,
            countdown_timer: now,
            game_timer: None,
            final_time: None,
            ground_timer: None,
            bag: initial_bag(order),
        }
    }

    /// A game that was started over at `now`: as a new game, but its countdown runs.
    pub open spec fn restarted(order: Seq<PieceType>, now: u64) -> GameView {
        GameView {
            state: GameState::Countdown(COUNTDOWN_START),
            ..GameView::initial(order, now)
        }
    }

    /// The run time to show at `now`: running while playing, frozen once finished,
    /// none before the run has started.
    pub open spec fn current_time(self, now: u64) -> Option<u64> {
        match self.game_timer {
            Some(started) => match self.state {
                GameState::Playing => Some(elapsed(now, started)),
                GameState::Finished => self.final_time,
                _ => None,
            },
            None => None,
        }
    }

    /// Whether a piece is well formed and stands at the spawn position.
    pub open spec fn waits_at_spawn(piece: PieceView) -> bool {
        piece.wf() && piece.x == SPAWN_X && piece.y == SPAWN_Y
    }

    /// What holds of every game: the board has its dimensions and no landing
    /// preview on it; the queue holds five fresh pieces; a held piece waits at the
    /// spawn position; the falling piece fits the board or stands at the spawn
    /// position; the bag holds no type twice; the countdown shows 1, 2 or 3.
    pub open spec fn wf(self) -> bool {
        &&& is_board(self.rows)
        &&& is_settled(self.rows)
        &&& self.queue.len() == NEXT_QUEUE_LEN
        &&& forall|i: int|
            0 <= i < self.queue.len() ==> #[trigger] self.queue[i] == PieceView::spawn(
                self.queue[i].piece_type,
            )
        &&& self.held matches Some(held) ==> GameView::waits_at_spawn(held)
        &&& self.piece matches Some(piece) ==> piece.wf() && (fits(self.rows, piece)
            || GameView::waits_at_spawn(piece))
        &&& self.bag.no_duplicates()
        &&& self.state matches GameState::Countdown(count) ==> 1 <= count <= COUNTDOWN_START
    }
}

/// The queue stays one of five fresh pieces when its head leaves and a fresh piece joins.
pub proof fn lemma_queue_advanced(game: GameView, draw: Draw)
    requires
        game.wf(),
    ensures
        game.queue_advanced(draw).len() == NEXT_QUEUE_LEN,
        forall|i: int|
            0 <= i < NEXT_QUEUE_LEN ==> #[trigger] game.queue_advanced(draw)[i]
                == PieceView::spawn(game.queue_advanced(draw)[i].piece_type),
        GameView::waits_at_spawn(game.queue[0]),
{
    lemma_spawn_wf(game.queue[0].piece_type);
}

/// Spawning keeps a game well formed.
pub proof fn lemma_spawned_wf(game: GameView, draw: Draw, now: u64)
    requires
        game.wf(),
        is_draw(game.bag, draw),
    ensures
        game.spawned(draw, now).wf(),
{
    lemma_draw_keeps_distinct(game.bag, draw);
    lemma_queue_advanced(game, draw);
}

/// Moving keeps a game well formed.
pub proof fn lemma_moved_wf(game: GameView, dx: int, dy: int, now: u64)
    requires
        game.wf(),
    ensures
        game.moved(dx, dy, now).wf(),
        game.stepped_down(now).wf(),
{
}

/// A rotation takes the piece only to a place that the board accepts.
pub proof fn lemma_first_accepted(game: GameView, candidates: Seq<PieceView>, from: int)
    ensures
        game.first_accepted(candidates, from) matches Some(target) ==> game.accepts(target)
            && candidates.contains(target),
    decreases candidates.len() - from,
{
    if 0 <= from < candidates.len() && !game.accepts(candidates[from]) {
        lemma_first_accepted(game, candidates, from + 1);
    }
}

/// Turning keeps a game well formed.
pub proof fn lemma_rotated_wf(game: GameView, rotation: Rotation)
    requires
        game.wf(),
    ensures
        game.rotated(rotation).wf(),
{
    if game.piece is Some {
        lemma_first_accepted(game, rotation_candidates(game.piece->0, rotation), 0);
    }
}

/// Holding keeps a game well formed.
pub proof fn lemma_held_swapped_wf(game: GameView, draw: Draw, now: u64)
    requires
        game.wf(),
        is_draw(game.bag, draw),
    ensures
        game.held_swapped(draw, now).wf(),
{
    lemma_draw_keeps_distinct(game.bag, draw);
    lemma_queue_advanced(game, draw);
}

/// Stamping a piece keeps the board's dimensions and puts no landing preview on it.
pub proof fn lemma_stamped_board(rows: Seq<Seq<Cell>>, piece: PieceView)
    requires
        is_board(rows),
    ensures
        is_board(stamped(rows, piece)),
        is_settled(rows) ==> is_settled(stamped(rows, piece)),
{
}

/// Locking keeps a game well formed.
pub proof fn lemma_locked_wf(game: GameView, draw: Draw, now: u64)
    requires
        game.wf(),
        is_draw(game.bag, draw),
    ensures
        game.locked(draw, now).wf(),
{
    let merged = game.rows_with_piece();
    if game.piece is Some {
        lemma_stamped_board(game.rows, game.piece->0);
    }
    lemma_cleared_rows(merged);
    let settled = GameView { rows: cleared(merged), piece: None, ..game }.lines_counted(
        full_row_count(merged),
        now,
    );
    assert(settled.wf());
    let released = GameView { input: settled.input.das_reset_at(now), ..settled };
    lemma_spawned_wf(released, draw, now);
}

/// Applying the inputs keeps a game well formed, and leaves the bag and the state alone.
pub proof fn lemma_inputs_applied(game: GameView, now: u64)
    requires
        game.wf(),
    ensures
        game.inputs_applied(now).wf(),
        game.inputs_applied(now).bag == game.bag,
        game.inputs_applied(now).state == game.state,
{
}

/// A game made from a full bag is well formed.
pub proof fn lemma_initial_wf(order: Seq<PieceType>, now: u64)
    requires
        is_full_bag(order),
    ensures
        GameView::initial(order, now).wf(),
{
}

/// A well-formed piece that fits the board reaches into it: its corner lies less
/// than its side left of the board or above the floor.
pub proof fn lemma_fitting_piece_bounds(rows: Seq<Seq<Cell>>, piece: PieceView)
    requires
        piece.wf(),
        fits(rows, piece),
    ensures
        -(MAX_PIECE_SIZE as int) < piece.x < BOARD_WIDTH,
        piece.y < BOARD_HEIGHT,
{
    let (i, j) = choose|i: int, j: int|
        0 <= i < piece.grid.len() && 0 <= j < piece.grid[i].len() && #[trigger] piece.grid[i][j];
    assert(piece.occupies(piece.x + j, piece.y + i));
}

/// A piece that falls straight down is stopped: from every offset on there is a
/// first offset at which the board does not accept it.
pub proof fn lemma_first_blocked(game: GameView, piece: PieceView, from: int) -> (at: int)
    requires
        piece.wf(),
    ensures
        game.blocked_at(piece, from, at),
    decreases BOARD_HEIGHT - piece.y - from,
{
    let here = piece.translated(0, from);
    if game.accepts(here) {
        lemma_fitting_piece_bounds(game.rows, here);
        lemma_first_blocked(game, piece, from + 1)
    } else {
        from
    }
}

/// Every well-formed game has a distance by which a hard drop moves its piece.
pub proof fn lemma_drop_exists(game: GameView) -> (distance: int)
    requires
        game.wf(),
    ensures
        game.drops_by(distance),
        0 <= distance,
{
    if game.state == GameState::Playing && game.piece is Some {
        lemma_first_blocked(game, game.piece->0, 1) - 1
    } else {
        0
    }
}

} // verus!
