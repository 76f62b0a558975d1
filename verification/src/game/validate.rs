//! Well-formedness as code: whether a piece or a game whose fields were set by hand
//! is well formed.

use vstd::prelude::*;
use crate::constants::{BOARD_HEIGHT, BOARD_WIDTH, COUNTDOWN_START, NEXT_QUEUE_LEN};
use crate::game::board::{board_rows, is_settled, lemma_board_rows, piece_fits, Board, Cell};
use crate::game::piece::{
    lemma_grid_index, Piece, PieceType, PieceView, MAX_PIECE_SIZE, SPAWN_X, SPAWN_Y,
};
use crate::game::model::GameView;
use crate::game::state::{Game, GameState};

verus! {

/// Whether two rotation matrices hold the same cells.
pub fn same_shape(a: &Vec<Vec<bool>>, b: &Vec<Vec<bool>>) -> (same: bool)
    ensures
        same == (a.deep_view() == b.deep_view()),
{
    proof {
        lemma_grid_index(*a);
        lemma_grid_index(*b);
    }
    if a.len() != b.len() {
        return false;
    }
    let mut i: usize = 0;
    while i < a.len()
        invariant
            i <= a.len(),
            a.len() == b.len(),
            forall|k: int| 0 <= k < a.len() ==> #[trigger] a.deep_view()[k] == a[k]@,
            forall|k: int| 0 <= k < b.len() ==> #[trigger] b.deep_view()[k] == b[k]@,
            a.deep_view().len() == a.len(),
            b.deep_view().len() == b.len(),
            forall|k: int| 0 <= k < i ==> (#[trigger] a[k])@ == b[k]@,
        decreases a.len() - i,
    {
        if a[i].len() != b[i].len() {
            assert(a.deep_view()[i as int] != b.deep_view()[i as int]);
            return false;
        }
        let mut j: usize = 0;
        while j < a[i].len()
            invariant
                i < a.len(),
                a.len() == b.len(),
                j <= a[i as int].len(),
                a[i as int].len() == b[i as int].len(),
                forall|k: int| 0 <= k < a.len() ==> #[trigger] a.deep_view()[k] == a[k]@,
                forall|k: int| 0 <= k < b.len() ==> #[trigger] b.deep_view()[k] == b[k]@,
                forall|k: int| 0 <= k < j ==> #[trigger] a[i as int][k] == b[i as int][k],
            decreases a[i as int].len() - j,
        {
            if a[i][j] != b[i][j] {
                assert(a.deep_view()[i as int][j as int] != b.deep_view()[i as int][j as int]);
                return false;
            }
            j += 1;
        }
        i += 1;
    }
    assert(a.deep_view() =~= b.deep_view());
    true
}

/// Whether two pieces are the same piece at the same place.
pub fn same_piece(a: &Piece, b: &Piece) -> (same: bool)
    ensures
        same == (a@ == b@),
{
    a.piece_type == b.piece_type && a.x == b.x && a.y == b.y && a.color == b.color && same_shape(
        &a.shape,
        &b.shape,
    )
}

/// Whether no type comes twice in the bag.
pub fn has_distinct_types(bag: &Vec<PieceType>) -> (distinct: bool)
    ensures
        distinct == bag@.no_duplicates(),
{
    let mut i: usize = 0;
    while i < bag.len()
        invariant
            i <= bag.len(),
            forall|a: int, b: int| 0 <= a < i && a < b < bag.len() ==> bag@[a] != bag@[b],
        decreases bag.len() - i,
    {
        let mut j: usize = i + 1;
        while j < bag.len()
            invariant
                i < j <= bag.len(),
                forall|b: int| i < b < j ==> bag@[i as int] != bag@[b],
            decreases bag.len() - j,
        {
            if bag[i] == bag[j] {
                return false;
            }
            j += 1;
        }
        i += 1;
    }
    true
}

/// Whether no cell of the board is a landing preview.
pub fn is_settled_board(board: &Board) -> (settled: bool)
    ensures
        settled == is_settled(board_rows(*board)),
{
    let ghost rows = board_rows(*board);
    proof {
        lemma_board_rows(*board);
    }
    let mut y: usize = 0;
    while y < BOARD_HEIGHT
        invariant
            y <= BOARD_HEIGHT,
            rows == board_rows(*board),
            forall|r: int, c: int|
                0 <= r < y && 0 <= c < BOARD_WIDTH ==> !(#[trigger] rows[r][c] is Preview),
        decreases BOARD_HEIGHT - y,
    {
        let mut x: usize = 0;
        while x < BOARD_WIDTH
            invariant
                y < BOARD_HEIGHT,
                x <= BOARD_WIDTH,
                rows == board_rows(*board),
                forall|c: int| 0 <= c < x ==> !(#[trigger] rows[y as int][c] is Preview),
            decreases BOARD_WIDTH - x,
        {
            match board[y][x] {
                Cell::Preview(_) => {
                    return false;
                },
                _ => {},
            }
            x += 1;
        }
        y += 1;
    }
    true
}

impl Piece {
    /// Whether the piece is well formed: see `PieceView::wf`.
    pub fn is_well_formed(&self) -> (ok: bool)
        ensures
            ok == self@.wf(),
    {
        let n = self.shape.len();
        let ghost grid = self@.grid;
        proof {
            lemma_grid_index(self.shape);
        }
        if n > MAX_PIECE_SIZE {
            return false;
        }
        let mut found = false;
        let ghost mut at: (int, int) = (0, 0);
        let mut i: usize = 0;
        while i < n
            invariant
                i <= n,
                n == self.shape.len(),
                n <= MAX_PIECE_SIZE,
                grid == self@.grid,
                grid.len() == n,
                forall|k: int| 0 <= k < n ==> #[trigger] grid[k] == self.shape[k]@,
                forall|k: int| 0 <= k < i ==> (#[trigger] grid[k]).len() == n,
                found ==> 0 <= at.0 < i && 0 <= at.1 < n && grid[at.0][at.1],
                !found ==> forall|r: int, c: int|
                    0 <= r < i && 0 <= c < n ==> !#[trigger] grid[r][c],
            decreases n - i,
        {
            if self.shape[i].len() != n {
                assert(grid[i as int].len() != n);
                return false;
            }
            let mut j: usize = 0;
            while j < n
                invariant
                    i < n,
                    j <= n,
                    n == self.shape.len(),
                    grid == self@.grid,
                    grid[i as int] == self.shape[i as int]@,
                    grid[i as int].len() == n,
                    grid.len() == n,
                    forall|k: int| 0 <= k < i ==> (#[trigger] grid[k]).len() == n,
                    !found ==> forall|r: int, c: int|
                        0 <= r < i && 0 <= c < n ==> !#[trigger] grid[r][c],
                    found ==> 0 <= at.0 <= i && 0 <= at.1 < n && grid[at.0][at.1],
                    found ==> at.0 < i || at.1 < j,
                    !found ==> forall|c: int| 0 <= c < j ==> !#[trigger] grid[i as int][c],
                decreases n - j,
            {
                if self.shape[i][j] {
                    found = true;
                    proof {
                        at = (i as int, j as int);
                    }
                }
                j += 1;
            }
            i += 1;
        }
        if !found {
            return false;
        }
        let reach: i32 = (n - 1) as i32;
        self.x <= i32::MAX - reach && self.y <= i32::MAX - reach
    }

    /// Whether the piece is as it was made: its type's spawn matrix and colour, at
    /// the spawn position.
    pub fn is_fresh(&self) -> (fresh: bool)
        ensures
            fresh == (self@ == PieceView::spawn(self@.piece_type)),
    {
        let made = Piece::new(self.piece_type);
        same_piece(self, &made)
    }
}

impl Game {
    /// Whether the game is well formed: see `GameView::wf`. Every operation keeps a
    /// game well formed; this is for a game whose fields were set by hand.
    pub fn is_well_formed(&self) -> (ok: bool)
        ensures
            ok == self.wf(),
    {
        proof {
            lemma_board_rows(self.board);
        }
        if !is_settled_board(&self.board) {
            return false;
        }
        if self.next_pieces.len() != NEXT_QUEUE_LEN {
            return false;
        }
        let mut i: usize = 0;
        while i < NEXT_QUEUE_LEN
            invariant
                i <= NEXT_QUEUE_LEN,
                self.next_pieces.len() == NEXT_QUEUE_LEN,
                forall|k: int|
                    0 <= k < i ==> #[trigger] self@.queue[k] == PieceView::spawn(
                        self@.queue[k].piece_type,
                    ),
            decreases NEXT_QUEUE_LEN - i,
        {
            if !self.next_pieces[i].is_fresh() {
                assert(self@.queue[i as int] == self.next_pieces[i as int]@);
                return false;
            }
            i += 1;
        }
        let held_ok = match &self.hold_piece {
            Some(held) => held.is_well_formed() && held.x == SPAWN_X && held.y == SPAWN_Y,
            None => true,
        };
        if !held_ok {
            return false;
        }
        let piece_ok = match &self.current_piece {
            Some(piece) => piece.is_well_formed() && (piece_fits(&self.board, piece) || (piece.x
                == SPAWN_X && piece.y == SPAWN_Y)),
            None => true,
        };
        if !piece_ok {
            return false;
        }
        if !has_distinct_types(&self.piece_bag) {
            return false;
        }
        match self.game_state {
            GameState::Countdown(count) => 1 <= count && count <= COUNTDOWN_START,
            _ => true,
        }
    }
}

} // verus!
