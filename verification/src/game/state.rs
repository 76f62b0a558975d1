//! The game: its state and the operations that drive it.

use vstd::prelude::*;
use crate::constants::{
    BOARD_HEIGHT, COUNTDOWN_INTERVAL, COUNTDOWN_START, DROP_DELAY, GROUND_TIME, NEXT_QUEUE_LEN,
    TARGET_LINES,
};
use crate::game::bag::{draw_piece_type, is_draw, is_full_bag, lemma_draw_exists, Draw, BAG_SIZE};
use crate::game::board::{
    board_rows, cleared, clear_full_rows, empty_board, fits, full_row_count, lemma_cleared_rows,
    piece_fits, stamp_piece, Board,
};
use crate::game::model::{
    initial_bag, initial_queue, kicks, lemma_fitting_piece_bounds, lemma_held_swapped_wf,
    lemma_initial_wf, lemma_inputs_applied, lemma_locked_wf, lemma_moved_wf, lemma_rotated_wf,
    lemma_spawned_wf, lemma_stamped_board, rotation_candidates, GameView,
};
use crate::game::piece::{Piece, PieceType, PieceView, Rotation, SPAWN_X, SPAWN_Y};
use crate::input::direction::{elapsed_ms, InputDirection};
use crate::input::handler::InputState;

verus! {

/// Where a game stands between its start and its end.
#[derive(Clone, Copy, PartialEq, Eq, Debug, Structural)]
pub enum GameState {
    Ready,
    /// The countdown shows the given number.
    Countdown(u32),
    Playing,
    Finished,
}

/// The engine of one sprint. All times are in milliseconds on a clock of the
/// caller's choosing; every operation that looks at the time takes it as `now`.
pub struct Game {
    pub board: Board,
    pub current_piece: Option<Piece>,
    pub next_pieces: Vec<Piece>,
    pub hold_piece: Option<Piece>,
    pub can_hold: bool,
    pub lines_cleared: u32,
    pub lines_remaining: u32,
    pub drop_timer: u64,
    pub input_state: InputState,
    pub game_state: GameState,
    pub countdown_timer: u64,
    pub game_timer: Option<u64>,
    pub final_time: Option<u64>,
    pub ground_timer: Option<u64>,
    pub piece_bag: Vec<PieceType>,
}

/// The models of a sequence of pieces.
pub open spec fn piece_views(pieces: Seq<Piece>) -> Seq<PieceView> {
    Seq::new(pieces.len(), |i: int| pieces[i]@)
}

/// The model of a piece that may be absent.
pub open spec fn optional_view(piece: Option<Piece>) -> Option<PieceView> {
    match piece {
        Some(piece) => Some(piece@),
        None => None,
    }
}

impl View for Game {
    type V = GameView;

    open spec fn view(&self) -> GameView {
        GameView {
            rows: board_rows(self.board),
            piece: optional_view(self.current_piece),
            queue: piece_views(self.next_pieces@),
            held: optional_view(self.hold_piece),
            can_hold: self.can_hold,
            lines_cleared: self.lines_cleared,
            lines_remaining: self.lines_remaining,
            drop_timer: self.drop_timer,
            input: self.input_state,
            state: self.game_state,
            countdown_timer: self.countdown_timer,
            game_timer: self.game_timer,
            final_time: self.final_time,
            ground_timer: self.ground_timer,
            bag: self.piece_bag@,
        }
    }
}

/// The kick offsets for a piece type, in the order in which a rotation tries them.
fn kick_offsets(piece_type: PieceType) -> (offsets: [(i32, i32); 5])
    ensures
        kicks(piece_type).len() == 5,
        forall|k: int|
            0 <= k < 5 ==> (#[trigger] offsets[k]).0 == kicks(piece_type)[k].0 && offsets[k].1
                == kicks(piece_type)[k].1,
{
    match piece_type {
        PieceType::I => [(1, 0), (-1, 0), (2, 0), (-2, 0), (0, -1)],
        _ => [(1, 0), (-1, 0), (0, -1), (1, -1), (-1, -1)],
    }
}

impl Game {
    /// Whether the game is well formed: see `GameView::wf`.
    pub open spec fn wf(&self) -> bool {
        self@.wf()
    }

    /// A new game, made at `now`, that waits in `Ready`. Its queue and bag come
    /// from one freshly shuffled bag.
    pub fn new(now: u64) -> (game: Game)
        ensures
            exists|order: Seq<PieceType>| #[trigger]
                is_full_bag(order) && game@ == GameView::initial(order, now),
            game.wf(),
    {
        let mut game = Game {
            board: empty_board(),
            current_piece: None,
            next_pieces: Vec::new(),
            hold_piece: None,
            can_hold: true,
            lines_cleared: 0,
            lines_remaining: TARGET_LINES,
            drop_timer: now,
            input_state: InputState::new(now),
            game_state: GameState::Ready,
            countdown_timer: now,
            game_timer: None,
            final_time: None,
            ground_timer: None,
            piece_bag: Vec::new(),
        };
        game.fill_next_pieces();
        proof {
            let order = choose|order: Seq<PieceType>| #[trigger]
                is_full_bag(order) && game@.bag == initial_bag(order) && game@.queue
                    == initial_queue(order);
            lemma_initial_wf(order, now);
        }
        game
    }

    /// Tops the queue up to five pieces, each of the type that the bag gives next.
    fn fill_next_pieces(&mut self)
        requires
            old(self).next_pieces.len() <= NEXT_QUEUE_LEN,
        ensures
            final(self)@ == (GameView {
                queue: final(self)@.queue,
                bag: final(self)@.bag,
                ..old(self)@
            }),
            final(self)@.queue.len() == NEXT_QUEUE_LEN,
            old(self).next_pieces.len() == NEXT_QUEUE_LEN - 1 ==> exists|draw: Draw| #[trigger]
                is_draw(old(self)@.bag, draw) && final(self)@.bag == draw.rest
                    && final(self)@.queue == old(self)@.queue.push(
                    PieceView::spawn(draw.piece_type),
                ),
            old(self).next_pieces.len() == 0 && old(self).piece_bag.len() == 0 ==> exists|
                order: Seq<PieceType>,
            | #[trigger]
                is_full_bag(order) && final(self)@.bag == initial_bag(order)
                    && final(self)@.queue == initial_queue(order),
    {
        let ghost before = self@;
        // The types drawn so far, the latest first, and the bag that a refill brought.
        let ghost mut drawn: Seq<PieceType> = Seq::empty();
        let ghost mut fresh: Seq<PieceType> = Seq::empty();
        while self.next_pieces.len() < NEXT_QUEUE_LEN
            invariant
                self.next_pieces.len() <= NEXT_QUEUE_LEN,
                self@ == (GameView { queue: self@.queue, bag: self@.bag, ..before }),
                self@.queue.len() == before.queue.len() + drawn.len(),
                forall|i: int| 0 <= i < before.queue.len() ==> self@.queue[i] == before.queue[i],
                forall|i: int|
                    0 <= i < drawn.len() ==> #[trigger] self@.queue[before.queue.len() + i]
                        == PieceView::spawn(drawn[drawn.len() - 1 - i]),
                fresh + before.bag == self@.bag + drawn,
                fresh.len() == 0 || is_full_bag(fresh),
                fresh.len() > 0 ==> before.bag.len() < drawn.len(),
            decreases NEXT_QUEUE_LEN - self.next_pieces.len(),
        {
            let ghost bag = self@.bag;
            let ghost queue = self@.queue;
            let piece_type = draw_piece_type(&mut self.piece_bag);
            let piece = Piece::new(piece_type);
            self.next_pieces.push(piece);
            proof {
                if bag.len() == 0 {
                    // A refill: the old bag is used up, so all of it is among the draws.
                    fresh = self@.bag.push(piece_type);
                }
                let latest = seq![piece_type] + drawn;
                assert(fresh + before.bag =~= self@.bag + latest);
                let kept = before.queue.len() as int;
                assert forall|i: int| 0 <= i < latest.len() implies #[trigger] self@.queue[kept
                    + i] == PieceView::spawn(latest[latest.len() - 1 - i]) by {
                    if i < drawn.len() {
                        assert(self@.queue[kept + i] == queue[kept + i]);
                    }
                }
                drawn = latest;
            }
        }
        proof {
            if before.queue.len() == NEXT_QUEUE_LEN - 1 {
                // One draw: from the old bag if it held something, else from a refill.
                let draw = Draw { piece_type: drawn[0], rest: self@.bag };
                assert(fresh + before.bag =~= self@.bag.push(drawn[0]));
                if before.bag.len() > 0 {
                    assert(self@.bag =~= before.bag.drop_last());
                }
                assert(is_draw(before.bag, draw));
            }
            if before.queue.len() == 0 && before.bag.len() == 0 {
                // Five draws from one refill: the queue and the bag make up `fresh`.
                assert forall|i: int| 0 <= i < NEXT_QUEUE_LEN implies self@.queue[i]
                    == PieceView::spawn(fresh[BAG_SIZE - 1 - i]) by {
                    assert(self@.queue[before.queue.len() + i] == PieceView::spawn(
                        drawn[drawn.len() - 1 - i],
                    ));
                }
                assert(is_full_bag(fresh) && self@.bag == initial_bag(fresh) && self@.queue
                    == initial_queue(fresh));
            }
        }
    }

    /// Ends the game at `now` and freezes its run time, unless the game is finished.
    fn finish(&mut self, now: u64)
        ensures
            final(self)@ == old(self)@.finished(now),
    {
        if self.game_state != GameState::Finished {
            self.game_state = GameState::Finished;
            if let Some(started) = self.game_timer {
                self.final_time = Some(elapsed_ms(now, started));
            }
        }
    }

    /// Starts the countdown from `Ready`; does nothing in any other state.
    pub fn start_countdown(&mut self, now: u64)
        ensures
            final(self)@ == old(self)@.countdown_started(now),
            old(self).wf() ==> final(self).wf(),
    {
        if self.game_state == GameState::Ready {
            self.game_state = GameState::Countdown(COUNTDOWN_START);
            self.countdown_timer = now;
        }
    }

    /// Starts the run at `now` and spawns the first piece.
    pub fn start_game(&mut self, now: u64)
        requires
            old(self).wf(),
        ensures
            exists|draw: Draw| #[trigger]
                is_draw(old(self)@.bag, draw) && final(self)@ == old(self)@.game_started(
                    draw,
                    now,
                ),
            final(self).wf(),
    {
        self.game_state = GameState::Playing;
        self.game_timer = Some(now);
        self.spawn_piece(now);
        proof {
            let started = GameView {
                state: GameState::Playing,
                game_timer: Some(now),
                ..old(self)@
            };
            let draw = choose|draw: Draw| #[trigger]
                is_draw(started.bag, draw) && self@ == started.spawned(draw, now);
            assert(is_draw(old(self)@.bag, draw) && self@ == old(self)@.game_started(draw, now));
        }
    }

    /// Makes the head of the queue the falling piece and tops the queue up. Does
    /// nothing unless the game is on. The game ends where the new piece does not fit.
    pub fn spawn_piece(&mut self, now: u64)
        requires
            old(self).wf(),
        ensures
            exists|draw: Draw| #[trigger]
                is_draw(old(self)@.bag, draw) && final(self)@ == old(self)@.spawned(draw, now),
            final(self).wf(),
    {
        if self.game_state != GameState::Playing {
            proof {
                let draw = lemma_draw_exists(self@.bag);
                assert(is_draw(old(self)@.bag, draw) && self@ == old(self)@.spawned(draw, now));
            }
            return ;
        }
        let piece = self.next_pieces.remove(0);
        assert(self@.queue =~= old(self)@.queue.skip(1));
        self.fill_next_pieces();
        self.can_hold = true;
        self.ground_timer = None;
        let valid = piece_fits(&self.board, &piece);
        self.current_piece = Some(piece);
        if !valid {
            self.finish(now);
        }
        proof {
            let draw = choose|draw: Draw| #[trigger]
                is_draw(old(self)@.bag, draw) && self@.bag == draw.rest && self@.queue
                    == old(self)@.queue.skip(1).push(PieceView::spawn(draw.piece_type));
            lemma_spawned_wf(old(self)@, draw, now);
        }
    }

    /// Whether the piece may stand where it is: each cell that it covers lies
    /// between the walls and above the floor, and those on the board are empty.
    /// Cells above the top row only have to lie between the walls.
    pub fn is_valid_position(&self, piece: &Piece) -> (valid: bool)
        requires
            piece@.wf(),
        ensures
            valid == fits(self@.rows, piece@),
            valid == self@.accepts(piece@),
    {
        piece_fits(&self.board, piece)
    }

    /// Tries to move the falling piece by `(dx, dy)` and says whether it moved.
    /// Does nothing unless the game is on. A move sideways or down that succeeds
    /// clears the ground timer; a move down that fails starts it unless it runs.
    pub fn move_piece(&mut self, dx: i32, dy: i32, now: u64) -> (moved: bool)
        requires
            old(self).wf(),
        ensures
            moved == old(self)@.can_move(dx as int, dy as int),
            final(self)@ == old(self)@.moved(dx as int, dy as int, now),
            final(self).wf(),
    {
        proof {
            lemma_moved_wf(self@, dx as int, dy as int, now);
        }
        if self.game_state != GameState::Playing {
            return false;
        }
        let candidate = match &self.current_piece {
            Some(piece) => piece.translate(dx, dy),
            None => {
                return false;
            },
        };
        let accepted = match candidate {
            Some(candidate) => if piece_fits(&self.board, &candidate) {
                Some(candidate)
            } else {
                None
            },
            None => None,
        };
        match accepted {
            Some(candidate) => {
                self.current_piece = Some(candidate);
                if dx != 0 || dy > 0 {
                    self.ground_timer = None;
                }
                true
            },
            None => {
                if dy > 0 && self.ground_timer.is_none() {
                    self.ground_timer = Some(now);
                }
                false
            },
        }
    }

    /// Tries to turn the falling piece: in place, or else moved by the first kick
    /// with which it fits. Says whether the piece turned.
    pub fn rotate(&mut self, rotation: Rotation) -> (turned: bool)
        requires
            old(self).wf(),
        ensures
            turned == (old(self)@.rotation_target(rotation) is Some),
            final(self)@ == old(self)@.rotated(rotation),
            final(self).wf(),
    {
        proof {
            lemma_rotated_wf(self@, rotation);
        }
        let rotated = match &self.current_piece {
            Some(piece) => piece.rotate(rotation),
            None => {
                return false;
            },
        };
        let ghost candidates = rotation_candidates(old(self)@.piece->0, rotation);
        if piece_fits(&self.board, &rotated) {
            self.current_piece = Some(rotated);
            return true;
        }
        let offsets = kick_offsets(rotated.piece_type);
        let mut k: usize = 0;
        while k < 5
            invariant
                k <= 5,
                *self == *old(self),
                self.wf(),
                rotated@.wf(),
                rotated@ == old(self)@.piece->0.rotated(rotation),
                old(self)@.piece is Some,
                candidates == rotation_candidates(old(self)@.piece->0, rotation),
                candidates.len() == 6,
                kicks(rotated@.piece_type).len() == 5,
                forall|m: int|
                    0 <= m < 5 ==> (#[trigger] offsets[m]).0 == kicks(rotated@.piece_type)[m].0
                        && offsets[m].1 == kicks(rotated@.piece_type)[m].1,
                self@.first_accepted(candidates, 0) == self@.first_accepted(
                    candidates,
                    k as int + 1,
                ),
            decreases 5 - k,
        {
            let (kick_x, kick_y) = offsets[k];
            let accepted = match rotated.translate(kick_x, kick_y) {
                Some(kicked) => if piece_fits(&self.board, &kicked) {
                    Some(kicked)
                } else {
                    None
                },
                None => None,
            };
            match accepted {
                Some(kicked) => {
                    self.current_piece = Some(kicked);
                    return true;
                },
                None => {},
            }
            k += 1;
        }
        false
    }

    /// Tries to turn the falling piece a quarter clockwise.
    pub fn rotate_piece(&mut self) -> (turned: bool)
        requires
            old(self).wf(),
        ensures
            turned == (old(self)@.rotation_target(Rotation::Clockwise) is Some),
            final(self)@ == old(self)@.rotated(Rotation::Clockwise),
            final(self).wf(),
    {
        self.rotate(Rotation::Clockwise)
    }

    /// Tries to turn the falling piece a quarter counter-clockwise.
    pub fn rotate_piece_left(&mut self) -> (turned: bool)
        requires
            old(self).wf(),
        ensures
            turned == (old(self)@.rotation_target(Rotation::CounterClockwise) is Some),
            final(self)@ == old(self)@.rotated(Rotation::CounterClockwise),
            final(self).wf(),
    {
        self.rotate(Rotation::CounterClockwise)
    }

    /// Tries to turn the falling piece by a half.
    pub fn rotate_piece_180(&mut self) -> (turned: bool)
        requires
            old(self).wf(),
        ensures
            turned == (old(self)@.rotation_target(Rotation::Half) is Some),
            final(self)@ == old(self)@.rotated(Rotation::Half),
            final(self).wf(),
    {
        self.rotate(Rotation::Half)
    }

    /// Puts the falling piece into hold and lets the held piece, or else the head
    /// of the queue, fall in its place. Does nothing where holding is off, the game
    /// is not on, or no piece falls.
    pub fn hold_piece(&mut self, now: u64)
        requires
            old(self).wf(),
        ensures
            exists|draw: Draw| #[trigger]
                is_draw(old(self)@.bag, draw) && final(self)@ == old(self)@.held_swapped(
                    draw,
                    now,
                ),
            final(self).wf(),
    {
        let ghost any_draw = lemma_draw_exists(self@.bag);
        if !self.can_hold || self.game_state != GameState::Playing {
            return ;
        }
        let mut current = match self.current_piece.take() {
            Some(current) => current,
            None => {
                return ;
            },
        };
        let ghost draw;
        let entering = match self.hold_piece.take() {
            Some(held) => {
                proof {
                    draw = any_draw;
                }
                held
            },
            None => {
                let next = self.next_pieces.remove(0);
                assert(self@.queue =~= old(self)@.queue.skip(1));
                self.fill_next_pieces();
                proof {
                    draw = choose|draw: Draw| #[trigger]
                        is_draw(old(self)@.bag, draw) && self@.bag == draw.rest && self@.queue
                            == old(self)@.queue.skip(1).push(PieceView::spawn(draw.piece_type));
                }
                next
            },
        };
        current.x = SPAWN_X;
        current.y = SPAWN_Y;
        self.hold_piece = Some(current);
        self.can_hold = false;
        let valid = piece_fits(&self.board, &entering);
        self.current_piece = Some(entering);
        if !valid {
            self.finish(now);
        }
        proof {
            lemma_held_swapped_wf(old(self)@, draw, now);
        }
    }

    /// Lets the falling piece fall as far as it can and locks it there at once.
    pub fn hard_drop(&mut self, now: u64)
        requires
            old(self).wf(),
        ensures
            exists|distance: int, draw: Draw|
                #![trigger old(self)@.drops_by(distance), is_draw(old(self)@.bag, draw)]
                old(self)@.drops_by(distance) && is_draw(old(self)@.bag, draw) && final(self)@
                    == old(self)@.dropped(distance, now).locked(draw, now),
            final(self).wf(),
    {
        let ghost before = self@;
        let ghost falling = before.state == GameState::Playing && before.piece is Some;
        let ghost mut distance: int = 0;
        proof {
            if falling && fits(before.rows, before.piece->0) {
                lemma_fitting_piece_bounds(before.rows, before.piece->0);
            }
        }
        loop
            invariant_except_break
                self.wf(),
                before == old(self)@,
                before.wf(),
                falling == (before.state == GameState::Playing && before.piece is Some),
                0 <= distance,
                forall|m: int|
                    1 <= m <= distance ==> before.accepts(
                        #[trigger] before.piece->0.translated(0, m),
                    ),
                falling ==> self@ == (GameView {
                    piece: Some(before.piece->0.translated(0, distance)),
                    ground_timer: if distance > 0 {
                        None
                    } else {
                        before.ground_timer
                    },
                    ..before
                }),
                falling ==> before.piece->0.y + distance < BOARD_HEIGHT,
                !falling ==> self@ == before && distance == 0,
            ensures
                self.wf(),
                before.drops_by(distance),
                self@ == before.dropped(distance, now),
            decreases BOARD_HEIGHT - before.piece->0.y - distance,
        {
            let moved = self.move_piece(0, 1, now);
            if !moved {
                break ;
            }
            proof {
                distance = distance + 1;
                lemma_fitting_piece_bounds(before.rows, before.piece->0.translated(0, distance));
            }
        }
        let ghost resting = self@;
        self.lock_piece(now);
        proof {
            let draw = choose|draw: Draw| #[trigger]
                is_draw(resting.bag, draw) && self@ == resting.locked(draw, now);
            assert(old(self)@.drops_by(distance) && is_draw(old(self)@.bag, draw) && self@
                == old(self)@.dropped(distance, now).locked(draw, now));
        }
    }

    /// Makes the falling piece part of the board, clears and counts the full rows,
    /// soft-resets the directions, spawns the next piece and restarts gravity.
    pub fn lock_piece(&mut self, now: u64)
        requires
            old(self).wf(),
        ensures
            exists|draw: Draw| #[trigger]
                is_draw(old(self)@.bag, draw) && final(self)@ == old(self)@.locked(draw, now),
            final(self).wf(),
    {
        let ghost merged = self@.rows_with_piece();
        proof {
            if self@.piece is Some {
                lemma_stamped_board(self@.rows, self@.piece->0);
            }
            lemma_cleared_rows(merged);
        }
        if let Some(piece) = &self.current_piece {
            stamp_piece(&mut self.board, piece);
        }
        self.current_piece = None;
        let lines = self.clear_lines();
        self.update_lines(lines, now);
        self.input_state.reset_das_states(now);
        let ghost released = self@;
        self.spawn_piece(now);
        self.drop_timer = now;
        proof {
            let draw = choose|draw: Draw| #[trigger]
                is_draw(released.bag, draw) && (GameView {
                    drop_timer: released.drop_timer,
                    ..self@
                }) == released.spawned(draw, now);
            lemma_locked_wf(old(self)@, draw, now);
        }
    }

    /// Removes the full rows from the board, lets the rows above them sink, and
    /// returns how many rows were removed.
    pub fn clear_lines(&mut self) -> (lines: u32)
        ensures
            final(self)@ == (GameView { rows: cleared(old(self)@.rows), ..old(self)@ }),
            lines == full_row_count(old(self)@.rows),
            lines <= BOARD_HEIGHT,
    {
        clear_full_rows(&mut self.board)
    }

    /// Counts `lines` cleared lines and ends the game when none remains.
    fn update_lines(&mut self, lines: u32, now: u64)
        ensures
            final(self)@ == old(self)@.lines_counted(lines as int, now),
    {
        self.lines_cleared = self.lines_cleared.saturating_add(lines);
        self.lines_remaining = self.lines_remaining.saturating_sub(lines);
        if self.lines_remaining == 0 {
            self.finish(now);
        }
    }

    /// The falling piece where a hard drop would leave it, or `None` where no piece
    /// falls or that place is where the piece is.
    pub fn get_ghost_piece(&self) -> (landing: Option<Piece>)
        requires
            self.wf(),
        ensures
            self@.piece is None ==> landing is None,
            landing matches Some(landing) ==> landing@.wf(),
            self@.piece matches Some(piece) ==> exists|at: int| #[trigger]
                self@.blocked_at(piece, 0, at) && optional_view(landing) == (if at == 1 {
                    None
                } else {
                    Some(piece.translated(0, at - 1))
                }),
    {
        let current = match &self.current_piece {
            Some(current) => current,
            None => {
                return None;
            },
        };
        let mut landing = current.clone();
        let ghost piece = current@;
        let ghost mut at: int = 0;
        proof {
            if fits(self@.rows, piece) {
                lemma_fitting_piece_bounds(self@.rows, piece);
            }
        }
        while piece_fits(&self.board, &landing)
            invariant
                piece == current@,
                piece.wf(),
                0 <= at,
                landing@ == piece.translated(0, at),
                landing@.wf(),
                piece.y + at <= BOARD_HEIGHT,
                at == 0 ==> fits(self@.rows, piece) || GameView::waits_at_spawn(piece),
                forall|m: int| 0 <= m < at ==> self@.accepts(#[trigger] piece.translated(0, m)),
            decreases BOARD_HEIGHT - piece.y - at,
        {
            proof {
                lemma_fitting_piece_bounds(self@.rows, landing@);
            }
            landing.y += 1;
            proof {
                at = at + 1;
            }
        }
        assert(self@.blocked_at(piece, 0, at));
        landing.y -= 1;
        if landing.y != current.y {
            Some(landing)
        } else {
            None
        }
    }

    /// One direction ticks at `now` and moves the piece if the tick fires.
    fn handle_movement(&mut self, direction: InputDirection, dx: i32, dy: i32, now: u64)
        requires
            old(self).wf(),
        ensures
            final(self)@ == old(self)@.movement_handled(direction, dx as int, dy as int, now),
            final(self).wf(),
    {
        let mut state = self.input_state.direction(direction);
        let should_move = state.tick(now);
        self.input_state.set_direction(direction, state);
        if should_move {
            self.move_piece(dx, dy, now);
        }
    }

    /// Tries to move the falling piece down one row; a failure starts the ground timer.
    fn step_down(&mut self, now: u64)
        requires
            old(self).wf(),
        ensures
            final(self)@ == old(self)@.stepped_down(now),
            final(self).wf(),
    {
        if !self.move_piece(0, 1, now) {
            if self.ground_timer.is_none() {
                self.ground_timer = Some(now);
            }
        }
    }

    /// The Down direction ticks at `now` and moves the piece down if the tick fires.
    fn handle_soft_drop(&mut self, now: u64)
        requires
            old(self).wf(),
        ensures
            final(self)@ == old(self)@.soft_drop_handled(now),
            final(self).wf(),
    {
        let should_move = self.input_state.down.tick_soft_drop(now);
        if should_move {
            self.step_down(now);
        }
    }

    /// Drives the game forward to `now`: one step of the countdown, or one frame of
    /// play. Does nothing in `Ready` and in `Finished`.
    pub fn update(&mut self, now: u64)
        requires
            old(self).wf(),
        ensures
            exists|draw: Draw| #[trigger]
                is_draw(old(self)@.bag, draw) && final(self)@ == old(self)@.updated(draw, now),
            final(self).wf(),
    {
        let ghost mut draw = lemma_draw_exists(self@.bag);
        match self.game_state {
            GameState::Ready => {},
            GameState::Finished => {},
            GameState::Countdown(count) => {
                if elapsed_ms(now, self.countdown_timer) >= COUNTDOWN_INTERVAL {
                    if count > 1 {
                        self.game_state = GameState::Countdown(count - 1);
                        self.countdown_timer = now;
                    } else {
                        self.start_game(now);
                        proof {
                            draw = choose|draw: Draw| #[trigger]
                                is_draw(old(self)@.bag, draw) && self@ == old(self)@.game_started(
                                    draw,
                                    now,
                                );
                        }
                    }
                }
            },
            GameState::Playing => {
                self.input_state.check_timeouts(now);
                self.handle_movement(InputDirection::Left, -1, 0, now);
                self.handle_movement(InputDirection::Right, 1, 0, now);
                self.handle_soft_drop(now);
                let ghost steered = self@;
                proof {
                    lemma_inputs_applied(old(self)@, now);
                }
                let lock_due = match self.ground_timer {
                    Some(grounded) => elapsed_ms(now, grounded) >= GROUND_TIME,
                    None => false,
                };
                if lock_due {
                    self.lock_piece(now);
                    proof {
                        draw = choose|draw: Draw| #[trigger]
                            is_draw(steered.bag, draw) && self@ == steered.locked(draw, now);
                    }
                } else if elapsed_ms(now, self.drop_timer) >= DROP_DELAY {
                    self.drop_timer = now;
                    self.step_down(now);
                }
            },
        }
        assert(is_draw(old(self)@.bag, draw) && self@ == old(self)@.updated(draw, now));
    }

    /// Starts over at `now`: everything is as in a new game, but the countdown is
    /// already running.
    pub fn reset(&mut self, now: u64)
        ensures
            exists|order: Seq<PieceType>| #[trigger]
                is_full_bag(order) && final(self)@ == GameView::restarted(order, now),
            final(self).wf(),
    {
        self.board = empty_board();
        self.current_piece = None;
        self.next_pieces.clear();
        self.piece_bag.clear();
        self.hold_piece = None;
        self.can_hold = true;
        self.lines_cleared = 0;
        self.lines_remaining = TARGET_LINES;
        self.drop_timer = now;
        self.input_state = InputState::new(now);
        self.game_timer = None;
        self.final_time = None;
        self.ground_timer = None;
        self.fill_next_pieces();
        self.game_state = GameState::Countdown(COUNTDOWN_START);
        self.countdown_timer = now;
        proof {
            let order = choose|order: Seq<PieceType>| #[trigger]
                is_full_bag(order) && self@.bag == initial_bag(order) && self@.queue
                    == initial_queue(order);
            lemma_initial_wf(order, now);
        }
    }

    /// The run time in milliseconds to show at `now`: running while the game is on,
    /// frozen once it is finished, `None` before the run has started.
    pub fn get_current_time(&self, now: u64) -> (time: Option<u64>)
        ensures
            time == self@.current_time(now),
    {
        match self.game_timer {
            Some(started) => match self.game_state {
                GameState::Playing => Some(elapsed_ms(now, started)),
                GameState::Finished => self.final_time,
                _ => None,
            },
            None => None,
        }
    }
}

} // verus!
