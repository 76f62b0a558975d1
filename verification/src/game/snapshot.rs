//! What is shown of a game: the field with the falling piece and its landing
//! preview on it, and the rows of a piece to draw in a small picture of it.

use vstd::prelude::*;
use crate::game::board::{
    board_rows, previewed, stamp_piece, stamp_preview, stamped, Board, Cell,
};
use crate::game::piece::{lemma_grid_index, Piece};
use crate::game::model::GameView;
use crate::game::state::{optional_view, Game};

verus! {

/// Whether a matrix row has a set cell.
pub open spec fn row_has_block(row: Seq<bool>) -> bool {
    exists|j: int| 0 <= j < row.len() && #[trigger] row[j]
}

/// Whether `first` and `last` are the first and the last row of the matrix that
/// hold a set cell.
pub open spec fn is_row_span(grid: Seq<Seq<bool>>, first: int, last: int) -> bool {
    &&& 0 <= first <= last < grid.len()
    &&& row_has_block(grid[first])
    &&& row_has_block(grid[last])
    &&& forall|i: int|
        0 <= i < grid.len() && #[trigger] row_has_block(grid[i]) ==> first <= i <= last
}

/// What is shown of the field where the piece, falling straight down, is first
/// blocked at the offset `at`: the board, on it the landing preview on the cells
/// that are empty, and over both the falling piece. There is no preview where the
/// piece already rests.
pub open spec fn display_rows(game: GameView, at: int) -> Seq<Seq<Cell>> {
    match game.piece {
        Some(piece) => stamped(
            if at == 1 {
                game.rows
            } else {
                previewed(game.rows, piece.translated(0, at - 1))
            },
            piece,
        ),
        None => game.rows,
    }
}

/// Whether the row has a set cell.
fn has_set_cell(row: &Vec<bool>) -> (found: bool)
    ensures
        found == row_has_block(row@),
{
    let mut j: usize = 0;
    while j < row.len()
        invariant
            j <= row.len(),
            forall|k: int| 0 <= k < j ==> !#[trigger] row@[k],
        decreases row.len() - j,
    {
        if row[j] {
            return true;
        }
        j += 1;
    }
    false
}

impl Piece {
    /// The first and the last row of the matrix that hold a set cell: the rows to
    /// draw in a preview of the piece.
    pub fn row_span(&self) -> (span: (usize, usize))
        requires
            self@.wf(),
        ensures
            is_row_span(self@.grid, span.0 as int, span.1 as int),
    {
        let n = self.shape.len();
        let ghost grid = self@.grid;
        proof {
            lemma_grid_index(self.shape);
            let (i, j) = choose|i: int, j: int|
                0 <= i < grid.len() && 0 <= j < grid[i].len() && #[trigger] grid[i][j];
            assert(row_has_block(grid[i]));
        }
        let mut first: usize = n;
        let mut last: usize = 0;
        let mut i: usize = 0;
        while i < n
            invariant
                i <= n,
                n == self.shape.len(),
                grid == self@.grid,
                grid.len() == n,
                forall|k: int| 0 <= k < n ==> #[trigger] grid[k] == self.shape[k]@,
                first == n ==> last == 0 && forall|k: int|
                    0 <= k < i ==> !#[trigger] row_has_block(grid[k]),
                first < n ==> first <= last < i && row_has_block(grid[first as int])
                    && row_has_block(grid[last as int]) && forall|k: int|
                    0 <= k < i && #[trigger] row_has_block(grid[k]) ==> first <= k <= last,
                first <= n,
            decreases n - i,
        {
            if has_set_cell(&self.shape[i]) {
                if first == n {
                    first = i;
                }
                last = i;
            }
            i += 1;
        }
        (first, last)
    }
}

impl Game {
    /// The field as it is to be drawn: a copy of the board with the landing preview
    /// and the falling piece on it.
    pub fn display_board(&self) -> (shown: Board)
        requires
            self.wf(),
        ensures
            self@.piece is None ==> board_rows(shown) == self@.rows,
            self@.piece matches Some(piece) ==> exists|at: int| #[trigger]
                self@.blocked_at(piece, 0, at) && board_rows(shown) == display_rows(self@, at),
    {
        let mut shown = self.board;
        let landing = self.get_ghost_piece();
        let ghost at: int = if self@.piece is Some {
            choose|at: int| #[trigger]
                self@.blocked_at(self@.piece->0, 0, at) && optional_view(landing) == (if at
                    == 1 {
                    None
                } else {
                    Some(self@.piece->0.translated(0, at - 1))
                })
        } else {
            0
        };
        match &landing {
            Some(landing) => {
                stamp_preview(&mut shown, landing);
            },
            None => {},
        }
        match &self.current_piece {
            Some(piece) => {
                stamp_piece(&mut shown, piece);
            },
            None => {},
        }
        shown
    }
}

} // verus!
