//! What holds of the game whatever is asked of it.

use vstd::prelude::*;
use crate::constants::{BOARD_HEIGHT, BOARD_WIDTH, COUNTDOWN_INTERVAL};
use crate::game::bag::{is_draw, Draw};
use crate::game::board::{
    cell_free, cleared, empty_row, fits, full_row_count, lemma_clear_one_row, lemma_cleared_rows,
    row_is_full, Cell,
};
use crate::game::piece::{PieceType, PieceView, Rotation};
use crate::game::model::{
    lemma_inputs_applied, lemma_locked_wf, lemma_moved_wf, lemma_spawned_wf, lemma_stamped_board,
    GameView,
};
use crate::game::state::GameState;
use crate::input::direction::elapsed;

verus! {

/// Whether the cell in column `cx` of row `cy` stops a piece that covers it: it
/// lies left or right of the board, at or below the floor, or on the board and is
/// not empty.
pub open spec fn cell_blocks(rows: Seq<Seq<Cell>>, cx: int, cy: int) -> bool {
    ||| cx < 0
    ||| cx >= BOARD_WIDTH
    ||| cy >= BOARD_HEIGHT
    ||| (cy >= 0 && rows[cy][cx] != Cell::Empty)
}

/// A piece does not fit exactly when it covers a cell that stops it.
pub proof fn lemma_misfit_has_blocking_cell(rows: Seq<Seq<Cell>>, piece: PieceView)
    ensures
        !fits(rows, piece) <==> exists|cx: int, cy: int| #[trigger]
            piece.occupies(cx, cy) && cell_blocks(rows, cx, cy),
{
}

/// A landing preview never stops a piece. No game has one on its board, so on the
/// board of a game only the walls, the floor and filled cells stop a piece.
pub proof fn lemma_preview_never_collides(game: GameView, piece: PieceView)
    requires
        game.wf(),
    ensures
        forall|y: int, x: int|
            0 <= y < BOARD_HEIGHT && 0 <= x < BOARD_WIDTH ==> !(
            #[trigger] game.rows[y][x] is Preview),
        fits(game.rows, piece) <==> forall|cx: int, cy: int| #[trigger]
            piece.occupies(cx, cy) ==> 0 <= cx < BOARD_WIDTH && cy < BOARD_HEIGHT && (cy >= 0
                ==> !(game.rows[cy][cx] is Filled)),
{
    if forall|cx: int, cy: int| #[trigger]
        piece.occupies(cx, cy) ==> 0 <= cx < BOARD_WIDTH && cy < BOARD_HEIGHT && (cy >= 0
            ==> !(game.rows[cy][cx] is Filled)) {
        assert forall|cx: int, cy: int| #[trigger] piece.occupies(cx, cy) implies cell_free(
            game.rows,
            cx,
            cy,
        ) by {
            if cy >= 0 {
                assert(!(game.rows[cy][cx] is Preview));
            }
        }
    }
}

/// Cells above the top row never stop a piece that lies between the walls.
pub proof fn lemma_cells_above_board_are_free(rows: Seq<Seq<Cell>>, cx: int, cy: int)
    requires
        0 <= cx < BOARD_WIDTH,
        cy < 0,
    ensures
        cell_free(rows, cx, cy),
{
}

/// Holding twice without a spawn in between does nothing the second time.
pub proof fn lemma_second_hold_does_nothing(
    game: GameView,
    first_draw: Draw,
    first: u64,
    second_draw: Draw,
    second: u64,
)
    ensures
        game.held_swapped(first_draw, first).held_swapped(second_draw, second)
            == game.held_swapped(first_draw, first),
        game.hold_allowed() ==> !game.held_swapped(first_draw, first).can_hold,
{
}

/// A spawn while the game is on allows holding again.
pub proof fn lemma_spawn_allows_hold(game: GameView, draw: Draw, now: u64)
    requires
        game.state == GameState::Playing,
    ensures
        game.spawned(draw, now).can_hold,
{
}

/// A finished game stays finished and keeps its run time, whatever is asked of it
/// short of a reset or a new start of the run.
pub proof fn lemma_finished_is_final(
    game: GameView,
    draw: Draw,
    dx: int,
    dy: int,
    distance: int,
    rotation: Rotation,
    now: u64,
)
    requires
        game.state == GameState::Finished,
    ensures
        game.updated(draw, now) == game,
        game.moved(dx, dy, now) == game,
        game.spawned(draw, now) == game,
        game.held_swapped(draw, now) == game,
        game.countdown_started(now) == game,
        game.finished(now) == game,
        game.rotated(rotation).state == GameState::Finished,
        game.rotated(rotation).final_time == game.final_time,
        game.locked(draw, now).state == GameState::Finished,
        game.locked(draw, now).final_time == game.final_time,
        game.dropped(distance, now) == game,
        game.current_time(now) == game.locked(draw, now).current_time(now),
{
}

/// The countdown keeps its number until its interval has passed, and then goes
/// down by one, or from 1 to the run.
pub proof fn lemma_countdown_steps(game: GameView, count: u32, draw: Draw, now: u64)
    requires
        game.state == GameState::Countdown(count),
    ensures
        elapsed(now, game.countdown_timer) < COUNTDOWN_INTERVAL ==> game.updated(draw, now)
            == game,
        elapsed(now, game.countdown_timer) >= COUNTDOWN_INTERVAL && count > 1 ==> game.updated(
            draw,
            now,
        ).state == GameState::Countdown((count - 1) as u32) && game.updated(
            draw,
            now,
        ).countdown_timer == now,
        elapsed(now, game.countdown_timer) >= COUNTDOWN_INTERVAL && count <= 1 ==> game.updated(
            draw,
            now,
        ).state != GameState::Countdown(count) && game.updated(draw, now).game_timer == Some(
            now,
        ),
{
}

/// A piece that moves sideways or down gets a fresh lock delay; a move straight up,
/// or none, leaves the delay as it is; a piece that cannot move down starts its
/// lock delay unless it runs.
pub proof fn lemma_ground_timer(game: GameView, dx: int, dy: int, now: u64)
    ensures
        game.can_move(dx, dy) && (dx != 0 || dy > 0) ==> game.moved(
            dx,
            dy,
            now,
        ).ground_timer is None,
        game.can_move(dx, dy) && dx == 0 && dy <= 0 ==> game.moved(dx, dy, now).ground_timer
            == game.ground_timer,
        game.state == GameState::Playing && game.piece is Some && !game.can_move(dx, dy) && dy
            > 0 ==> game.moved(dx, dy, now).ground_timer is Some,
        !game.can_move(dx, dy) && dy <= 0 ==> game.moved(dx, dy, now) == game,
{
}

/// A piece that was turned on the ground so that it can fall again does not lock
/// in the air: the row that it falls clears the lock delay, and the frame in which
/// it falls does not lock it.
pub proof fn lemma_fall_clears_lock_delay(game: GameView, now: u64)
    requires
        game.can_move(0, 1),
    ensures
        game.moved(0, 1, now).ground_timer is None,
        game.stepped_down(now).ground_timer is None,
        !game.stepped_down(now).lock_due(now),
{
}

/// After a hard drop of one row or more the lock delay runs from the time of the
/// drop, whatever it was before; a piece that was dropped where it rests keeps a
/// delay that runs.
pub proof fn lemma_drop_restarts_lock_delay(game: GameView, distance: int, now: u64)
    requires
        game.state == GameState::Playing,
        game.piece is Some,
    ensures
        distance > 0 ==> game.dropped(distance, now).ground_timer == Some(now),
        distance <= 0 && game.ground_timer is Some ==> game.dropped(distance, now).ground_timer
            == game.ground_timer,
        distance <= 0 && game.ground_timer is None ==> game.dropped(distance, now).ground_timer
            == Some(now),
{
}

/// A game that ends stays well formed.
pub proof fn lemma_finished_wf(game: GameView, now: u64)
    requires
        game.wf(),
    ensures
        game.finished(now).wf(),
{
}

/// Starting the run keeps a game well formed.
pub proof fn lemma_game_started_wf(game: GameView, draw: Draw, now: u64)
    requires
        game.wf(),
        is_draw(game.bag, draw),
    ensures
        game.game_started(draw, now).wf(),
{
    lemma_spawned_wf(
        GameView { state: GameState::Playing, game_timer: Some(now), ..game },
        draw,
        now,
    );
}

/// A hard drop keeps a game well formed.
pub proof fn lemma_dropped_wf(game: GameView, distance: int, now: u64)
    requires
        game.wf(),
        game.drops_by(distance),
    ensures
        game.dropped(distance, now).wf(),
{
}

/// A frame keeps a game well formed.
pub proof fn lemma_updated_wf(game: GameView, draw: Draw, now: u64)
    requires
        game.wf(),
        is_draw(game.bag, draw),
    ensures
        game.updated(draw, now).wf(),
{
    match game.state {
        GameState::Countdown(count) => {
            lemma_game_started_wf(game, draw, now);
        },
        GameState::Playing => {
            lemma_inputs_applied(game, now);
            let steered = game.inputs_applied(now);
            lemma_locked_wf(steered, draw, now);
            lemma_moved_wf(GameView { drop_timer: now, ..steered }, 0, 1, now);
        },
        _ => {},
    }
}

/// A piece that falls straight down has only one first offset at which it is
/// stopped: the distance of a hard drop and the place of the landing preview are
/// determined.
pub proof fn lemma_first_blocked_is_unique(
    game: GameView,
    piece: PieceView,
    from: int,
    one: int,
    other: int,
)
    requires
        game.blocked_at(piece, from, one),
        game.blocked_at(piece, from, other),
    ensures
        one == other,
{
    if one < other {
        assert(game.accepts(piece.translated(0, one)));
    }
    if other < one {
        assert(game.accepts(piece.translated(0, other)));
    }
}

/// The landing preview of a piece that fits lies where a hard drop takes the piece.
pub proof fn lemma_preview_marks_the_drop(game: GameView, at: int, distance: int)
    requires
        game.state == GameState::Playing,
        game.piece is Some,
        game.accepts(game.piece->0),
        game.blocked_at(game.piece->0, 0, at),
        game.drops_by(distance),
    ensures
        at - 1 == distance,
{
    let piece = game.piece->0;
    assert(piece.translated(0, 0) =~= piece);
    assert(game.blocked_at(piece, 0, distance + 1));
    lemma_first_blocked_is_unique(game, piece, 0, at, distance + 1);
}

/// A bag that holds something gives only one draw: its last entry.
pub proof fn lemma_draw_from_filled_bag(bag: Seq<PieceType>, one: Draw, other: Draw)
    requires
        bag.len() > 0,
        is_draw(bag, one),
        is_draw(bag, other),
    ensures
        one == other,
        one.piece_type == bag.last(),
{
}

/// A lock that completes exactly one row while more than one line remains: one
/// more line is cleared and one less remains; the rows above the full row, the
/// locked piece's cells among them, sink by one, the rows below it stay, and the
/// top row is empty; the head of the queue falls in place of the locked piece, and
/// the game goes on unless that piece does not fit.
pub proof fn lemma_lock_completes_one_line(game: GameView, draw: Draw, full: int, now: u64)
    requires
        game.wf(),
        game.state == GameState::Playing,
        game.piece is Some,
        is_draw(game.bag, draw),
        game.lines_remaining > 1,
        game.lines_cleared < u32::MAX,
        0 <= full < BOARD_HEIGHT,
        forall|y: int|
            0 <= y < BOARD_HEIGHT ==> (row_is_full(#[trigger] game.rows_with_piece()[y]) <==> y
                == full),
    ensures
        game.locked(draw, now).lines_cleared == game.lines_cleared + 1,
        game.locked(draw, now).lines_remaining == game.lines_remaining - 1,
        game.locked(draw, now).rows[0] == empty_row(),
        forall|y: int|
            1 <= y <= full ==> #[trigger] game.locked(draw, now).rows[y]
                == game.rows_with_piece()[y - 1],
        forall|y: int|
            full < y < BOARD_HEIGHT ==> #[trigger] game.locked(draw, now).rows[y]
                == game.rows_with_piece()[y],
        game.locked(draw, now).piece == Some(game.queue[0]),
        game.locked(draw, now).queue == game.queue_advanced(draw),
        game.locked(draw, now).drop_timer == now,
        game.locked(draw, now).state == if fits(game.locked(draw, now).rows, game.queue[0]) {
            GameState::Playing
        } else {
            GameState::Finished
        },
{
    lemma_stamped_board(game.rows, game.piece->0);
    lemma_clear_one_row(game.rows_with_piece(), full);
}

/// A lock that completes at least as many rows as lines remain ends the sprint: no
/// line remains, the game is finished, its run time is the time since the run
/// began, and no piece falls.
pub proof fn lemma_lock_completes_last_line(game: GameView, draw: Draw, started: u64, now: u64)
    requires
        game.wf(),
        game.state == GameState::Playing,
        game.game_timer == Some(started),
        full_row_count(game.rows_with_piece()) >= game.lines_remaining,
        game.lines_cleared + full_row_count(game.rows_with_piece()) <= u32::MAX,
    ensures
        game.locked(draw, now).state == GameState::Finished,
        game.locked(draw, now).final_time == Some(elapsed(now, started)),
        game.locked(draw, now).lines_remaining == 0,
        game.locked(draw, now).lines_cleared == game.lines_cleared + full_row_count(
            game.rows_with_piece(),
        ),
        game.locked(draw, now).piece is None,
        game.locked(draw, now).rows == cleared(game.rows_with_piece()),
        game.locked(draw, now).current_time(now) == Some(elapsed(now, started)),
{
    if game.piece is Some {
        lemma_stamped_board(game.rows, game.piece->0);
    }
    lemma_cleared_rows(game.rows_with_piece());
}

} // verus!
