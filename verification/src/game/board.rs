//! The board: where a piece fits, how it is stamped on, and how full rows are cleared.

use vstd::prelude::*;
use crate::constants::{BOARD_HEIGHT, BOARD_WIDTH};
use crate::game::piece::{lemma_cells_cover, same_cells, Piece, PieceView};

verus! {

/// The colours in which cells are drawn.
#[derive(Clone, Copy, PartialEq, Eq, Debug, Structural)]
pub enum Color {
    Cyan,
    Yellow,
    Magenta,
    Green,
    Red,
    Blue,
    LightYellow,
}

/// One cell of the field. `Preview` marks where the falling piece would land; it is
/// only ever put on a copy of the board that is handed out for drawing.
#[derive(Clone, Copy, PartialEq, Eq, Debug, Structural)]
pub enum Cell {
    Empty,
    Filled(Color),
    Preview(Color),
}

/// The field: `BOARD_HEIGHT` rows of `BOARD_WIDTH` cells; row 0 is the top row.
pub type Board = [[Cell; BOARD_WIDTH]; BOARD_HEIGHT];

/// The mathematical model of a board: its rows from the top, each a sequence of cells.
pub open spec fn board_rows(board: Board) -> Seq<Seq<Cell>> {
    Seq::new(BOARD_HEIGHT as nat, |y: int| board[y]@)
}

/// A row without any cell in it.
pub open spec fn empty_row() -> Seq<Cell> {
    Seq::new(BOARD_WIDTH as nat, |x: int| Cell::Empty)
}

/// A board without any cell in it.
pub open spec fn empty_rows() -> Seq<Seq<Cell>> {
    Seq::new(BOARD_HEIGHT as nat, |y: int| empty_row())
}

/// Whether `rows` has the dimensions of a board.
pub open spec fn is_board(rows: Seq<Seq<Cell>>) -> bool {
    &&& rows.len() == BOARD_HEIGHT
    &&& forall|y: int| 0 <= y < BOARD_HEIGHT ==> (#[trigger] rows[y]).len() == BOARD_WIDTH
}

/// Whether no cell of the board is a landing preview.
pub open spec fn is_settled(rows: Seq<Seq<Cell>>) -> bool {
    forall|y: int, x: int|
        0 <= y < rows.len() && 0 <= x < rows[y].len() ==> !(#[trigger] rows[y][x] is Preview)
}

/// A row is full when none of its cells is empty.
pub open spec fn row_is_full(row: Seq<Cell>) -> bool {
    forall|x: int| 0 <= x < row.len() ==> #[trigger] row[x] != Cell::Empty
}

/// The test by which line clearing keeps a row.
pub open spec fn is_kept() -> spec_fn(Seq<Cell>) -> bool {
    |row: Seq<Cell>| !row_is_full(row)
}

/// The rows that line clearing keeps, in their order.
pub open spec fn kept_rows(rows: Seq<Seq<Cell>>) -> Seq<Seq<Cell>> {
    rows.filter(is_kept())
}

/// The number of full rows.
pub open spec fn full_row_count(rows: Seq<Seq<Cell>>) -> int {
    rows.len() - kept_rows(rows).len()
}

/// The board after line clearing: the full rows are gone, the other rows keep their
/// order and sink to the bottom, and as many empty rows as were removed come in at the top.
pub open spec fn cleared(rows: Seq<Seq<Cell>>) -> Seq<Seq<Cell>> {
    Seq::new(full_row_count(rows) as nat, |y: int| empty_row()) + kept_rows(rows)
}

/// Whether a piece may cover the cell in column `cx` of row `cy`: the cell lies
/// between the two walls and above the floor, and is empty unless it lies above the
/// top row.
pub open spec fn cell_free(rows: Seq<Seq<Cell>>, cx: int, cy: int) -> bool {
    &&& 0 <= cx < BOARD_WIDTH
    &&& cy < BOARD_HEIGHT
    &&& cy >= 0 ==> rows[cy][cx] == Cell::Empty
}

/// Whether every cell that the piece covers is free.
pub open spec fn fits(rows: Seq<Seq<Cell>>, piece: PieceView) -> bool {
    forall|cx: int, cy: int| #[trigger] piece.occupies(cx, cy) ==> cell_free(rows, cx, cy)
}

/// The board with the piece's cells that lie on it filled in the piece's colour.
pub open spec fn stamped(rows: Seq<Seq<Cell>>, piece: PieceView) -> Seq<Seq<Cell>> {
    Seq::new(
        rows.len(),
        |y: int|
            Seq::new(
                rows[y].len(),
                |x: int|
                    if piece.occupies(x, y) {
                        Cell::Filled(piece.color)
                    } else {
                        rows[y][x]
                    },
            ),
    )
}

/// The board with a landing preview on the empty cells that the piece would cover.
pub open spec fn previewed(rows: Seq<Seq<Cell>>, piece: PieceView) -> Seq<Seq<Cell>> {
    Seq::new(
        rows.len(),
        |y: int|
            Seq::new(
                rows[y].len(),
                |x: int|
                    if piece.occupies(x, y) && rows[y][x] == Cell::Empty {
                        Cell::Preview(piece.color)
                    } else {
                        rows[y][x]
                    },
            ),
    )
}

/// The rows of a board index like the board itself.
pub proof fn lemma_board_rows(board: Board)
    ensures
        is_board(board_rows(board)),
        forall|y: int, x: int|
            0 <= y < BOARD_HEIGHT && 0 <= x < BOARD_WIDTH ==> #[trigger] board_rows(board)[y][x]
                == board[y][x],
{
}

/// A board without any cell in it.
pub fn empty_board() -> (board: Board)
    ensures
        board_rows(board) == empty_rows(),
{
    let board = [[Cell::Empty; BOARD_WIDTH]; BOARD_HEIGHT];
    assert(board_rows(board) =~~= empty_rows());
    board
}

/// Whether none of the row's cells is empty.
pub fn is_full_row(row: &[Cell; BOARD_WIDTH]) -> (full: bool)
    ensures
        full == row_is_full(row@),
{
    let mut x: usize = 0;
    while x < BOARD_WIDTH
        invariant
            x <= BOARD_WIDTH,
            forall|k: int| 0 <= k < x ==> #[trigger] row@[k] != Cell::Empty,
        decreases BOARD_WIDTH - x,
    {
        if row[x] == Cell::Empty {
            return false;
        }
        x += 1;
    }
    true
}

/// Whether the piece may stand where it is: each cell that it covers lies between
/// the walls and above the floor, and those on the board are empty.
pub fn piece_fits(board: &Board, piece: &Piece) -> (ok: bool)
    requires
        piece@.wf(),
    ensures
        ok == fits(board_rows(*board), piece@),
{
    let blocks = piece.get_blocks();
    let ghost rows = board_rows(*board);
    let ghost cells = piece@.cells();
    proof {
        lemma_cells_cover(piece@);
    }
    let mut k: usize = 0;
    while k < blocks.len()
        invariant
            k <= blocks.len(),
            rows == board_rows(*board),
            cells == piece@.cells(),
            same_cells(blocks@, cells),
            forall|cx: int, cy: int| #[trigger]
                cells.contains((cx, cy)) <==> piece@.occupies(cx, cy),
            forall|m: int| 0 <= m < k ==> cell_free(rows, (#[trigger] cells[m]).0, cells[m].1),
        decreases blocks.len() - k,
    {
        let (x, y) = blocks[k];
        let ghost cell = cells[k as int];
        assert(cells.contains(cell));
        if x < 0 || x >= BOARD_WIDTH as i32 || y >= BOARD_HEIGHT as i32 {
            return false;
        }
        if y >= 0 && board[y as usize][x as usize] != Cell::Empty {
            return false;
        }
        k += 1;
    }
    assert forall|cx: int, cy: int| #[trigger] piece@.occupies(cx, cy) implies cell_free(
        rows,
        cx,
        cy,
    ) by {
        assert(cells.contains((cx, cy)));
    }
    true
}

/// Fills the piece's cells that lie on the board in the piece's colour.
pub fn stamp_piece(board: &mut Board, piece: &Piece)
    requires
        piece@.wf(),
    ensures
        board_rows(*final(board)) == stamped(board_rows(*old(board)), piece@),
{
    let blocks = piece.get_blocks();
    let ghost rows = board_rows(*board);
    let ghost cells = piece@.cells();
    let color = piece.color;
    proof {
        lemma_cells_cover(piece@);
    }
    let mut k: usize = 0;
    while k < blocks.len()
        invariant
            k <= blocks.len(),
            cells == piece@.cells(),
            color == piece@.color,
            same_cells(blocks@, cells),
            forall|y: int, x: int|
                0 <= y < BOARD_HEIGHT && 0 <= x < BOARD_WIDTH ==> #[trigger] board[y][x] == (
                if cells.take(k as int).contains((x, y)) {
                    Cell::Filled(color)
                } else {
                    rows[y][x]
                }),
        decreases blocks.len() - k,
    {
        let (x, y) = blocks[k];
        let ghost cell = cells[k as int];
        let ghost before = cells.take(k as int);
        assert(cells.take(k + 1) =~= before.push(cell));
        assert forall|c: (int, int)| #[trigger]
            cells.take(k + 1).contains(c) <==> before.contains(c) || c == cell by {
            vstd::seq_lib::lemma_seq_contains_after_push(before, cell, c);
        }
        if y >= 0 && y < BOARD_HEIGHT as i32 && x >= 0 && x < BOARD_WIDTH as i32 {
            board[y as usize][x as usize] = Cell::Filled(color);
        }
        k += 1;
    }
    assert(cells.take(cells.len() as int) =~= cells);
    assert(board_rows(*board) =~~= stamped(rows, piece@));
}

/// Puts a landing preview on the empty cells of the board that the piece covers.
pub fn stamp_preview(board: &mut Board, piece: &Piece)
    requires
        piece@.wf(),
    ensures
        board_rows(*final(board)) == previewed(board_rows(*old(board)), piece@),
{
    let blocks = piece.get_blocks();
    let ghost rows = board_rows(*board);
    let ghost cells = piece@.cells();
    let color = piece.color;
    proof {
        lemma_cells_cover(piece@);
    }
    let mut k: usize = 0;
    while k < blocks.len()
        invariant
            k <= blocks.len(),
            cells == piece@.cells(),
            color == piece@.color,
            same_cells(blocks@, cells),
            forall|y: int, x: int|
                0 <= y < BOARD_HEIGHT && 0 <= x < BOARD_WIDTH ==> #[trigger] board[y][x] == (
                if cells.take(k as int).contains((x, y)) && rows[y][x] == Cell::Empty {
                    Cell::Preview(color)
                } else {
                    rows[y][x]
                }),
        decreases blocks.len() - k,
    {
        let (x, y) = blocks[k];
        let ghost cell = cells[k as int];
        let ghost before = cells.take(k as int);
        assert(cells.take(k + 1) =~= before.push(cell));
        assert forall|c: (int, int)| #[trigger]
            cells.take(k + 1).contains(c) <==> before.contains(c) || c == cell by {
            vstd::seq_lib::lemma_seq_contains_after_push(before, cell, c);
        }
        if x >= 0 && x < BOARD_WIDTH as i32 && y >= 0 && y < BOARD_HEIGHT as i32 {
            if board[y as usize][x as usize] == Cell::Empty {
                board[y as usize][x as usize] = Cell::Preview(color);
            }
        }
        k += 1;
    }
    assert(cells.take(cells.len() as int) =~= cells);
    assert(board_rows(*board) =~~= previewed(rows, piece@));
}

/// Line clearing looks at each row on its own: the kept rows of a board are the kept
/// rows of its top part followed by the kept rows of the rest.
proof fn lemma_kept_rows_split(rows: Seq<Seq<Cell>>, at: int)
    requires
        0 <= at <= rows.len(),
    ensures
        kept_rows(rows) == kept_rows(rows.subrange(0, at)) + kept_rows(
            rows.subrange(at, rows.len() as int),
        ),
{
    let top = rows.subrange(0, at);
    let rest = rows.subrange(at, rows.len() as int);
    assert(rows =~= top + rest);
    Seq::filter_distributes_over_add(top, rest, is_kept());
}

/// The kept rows of a single row: the row itself unless it is full.
proof fn lemma_kept_rows_single(row: Seq<Cell>)
    ensures
        kept_rows(seq![row]) == if row_is_full(row) {
            Seq::<Seq<Cell>>::empty()
        } else {
            seq![row]
        },
{
    reveal_with_fuel(Seq::filter, 2);
}

/// Removes the full rows: the rows that are not full keep their order and sink to
/// the bottom, and empty rows come in at the top. Returns how many rows were removed.
pub fn clear_full_rows(board: &mut Board) -> (count: u32)
    ensures
        board_rows(*final(board)) == cleared(board_rows(*old(board))),
        count == full_row_count(board_rows(*old(board))),
        count <= BOARD_HEIGHT,
{
    let ghost rows = board_rows(*board);
    let mut count: u32 = 0;
    let mut read: usize = BOARD_HEIGHT;
    let mut write: usize = BOARD_HEIGHT;
    proof {
        reveal_with_fuel(Seq::filter, 1);
    }
    while read > 0
        invariant
            read <= write <= BOARD_HEIGHT,
            rows.len() == BOARD_HEIGHT,
            count == write - read,
            forall|y: int| 0 <= y < read ==> #[trigger] board[y]@ == rows[y],
            board_rows(*board).subrange(write as int, BOARD_HEIGHT as int) == kept_rows(
                rows.subrange(read as int, BOARD_HEIGHT as int),
            ),
        decreases read,
    {
        let ghost below = rows.subrange(read as int, BOARD_HEIGHT as int);
        read -= 1;
        let ghost row = rows[read as int];
        proof {
            let from_here = rows.subrange(read as int, BOARD_HEIGHT as int);
            lemma_kept_rows_split(from_here, 1);
            assert(from_here.subrange(0, 1) =~= seq![row]);
            assert(from_here.subrange(1, from_here.len() as int) =~= below);
            lemma_kept_rows_single(row);
        }
        if !is_full_row(&board[read]) {
            write -= 1;
            if read != write {
                board[write] = board[read];
            }
        } else {
            count += 1;
        }
    }
    proof {
        assert(rows.subrange(0, BOARD_HEIGHT as int) =~= rows);
    }
    let ghost kept = kept_rows(rows);
    let mut y: usize = 0;
    while y < write
        invariant
            y <= write <= BOARD_HEIGHT,
            board_rows(*board).subrange(write as int, BOARD_HEIGHT as int) == kept,
            forall|k: int| 0 <= k < y ==> #[trigger] board[k]@ == empty_row(),
        decreases write - y,
    {
        board[y] = [Cell::Empty; BOARD_WIDTH];
        y += 1;
    }
    assert(board_rows(*board) =~= cleared(rows));
    count
}

/// Line clearing leaves a board without full rows as it is.
pub proof fn lemma_clear_without_full_rows(rows: Seq<Seq<Cell>>)
    requires
        forall|y: int| 0 <= y < rows.len() ==> !row_is_full(#[trigger] rows[y]),
    ensures
        full_row_count(rows) == 0,
        cleared(rows) == rows,
    decreases rows.len(),
{
    if rows.len() == 0 {
        reveal_with_fuel(Seq::filter, 1);
        assert(kept_rows(rows) =~= rows);
    } else {
        let top = rows.drop_last();
        let last = rows.last();
        lemma_clear_without_full_rows(top);
        lemma_kept_rows_split(rows, rows.len() - 1);
        assert(rows.subrange(rows.len() - 1, rows.len() as int) =~= seq![last]);
        lemma_kept_rows_single(last);
    }
}

/// After line clearing no row is full, so clearing again changes nothing.
pub proof fn lemma_clear_is_idempotent(rows: Seq<Seq<Cell>>)
    requires
        is_board(rows),
    ensures
        is_board(cleared(rows)),
        full_row_count(cleared(rows)) == 0,
        cleared(cleared(rows)) == cleared(rows),
{
    lemma_cleared_rows(rows);
    let after = cleared(rows);
    assert forall|y: int| 0 <= y < after.len() implies !row_is_full(#[trigger] after[y]) by {
        let removed = full_row_count(rows);
        if y < removed {
            assert(after[y][0] == Cell::Empty);
        } else {
            rows.lemma_filter_pred(is_kept(), y - removed);
        }
    }
    lemma_clear_without_full_rows(after);
}

/// Line clearing keeps the dimensions of the board, and every row of the result is
/// an empty row or a row that the board had before.
pub proof fn lemma_cleared_rows(rows: Seq<Seq<Cell>>)
    requires
        is_board(rows),
    ensures
        is_board(cleared(rows)),
        0 <= full_row_count(rows) <= BOARD_HEIGHT,
        forall|y: int|
            0 <= y < BOARD_HEIGHT ==> #[trigger] cleared(rows)[y] == empty_row() || rows.contains(
                cleared(rows)[y],
            ),
        is_settled(rows) ==> is_settled(cleared(rows)),
{
    rows.lemma_filter_len(is_kept());
    let after = cleared(rows);
    let removed = full_row_count(rows);
    assert forall|y: int| 0 <= y < BOARD_HEIGHT implies #[trigger] after[y] == empty_row()
        || rows.contains(after[y]) by {
        if y >= removed {
            let row = kept_rows(rows)[y - removed];
            rows.lemma_filter_contains_rev(is_kept(), row);
        }
    }
}

/// Where exactly one row is full, the kept rows are the rows above it followed by
/// the rows below it.
proof fn lemma_kept_rows_one_full(rows: Seq<Seq<Cell>>, full: int)
    requires
        0 <= full < rows.len(),
        forall|y: int| 0 <= y < rows.len() ==> (row_is_full(#[trigger] rows[y]) <==> y == full),
    ensures
        kept_rows(rows) == rows.subrange(0, full) + rows.subrange(full + 1, rows.len() as int),
{
    let above = rows.subrange(0, full);
    let from_full = rows.subrange(full, rows.len() as int);
    let below = rows.subrange(full + 1, rows.len() as int);
    assert(kept_rows(above) == above) by {
        assert forall|y: int| 0 <= y < above.len() implies !row_is_full(#[trigger] above[y]) by {
            assert(above[y] == rows[y]);
        }
        lemma_clear_without_full_rows(above);
        assert(cleared(above) =~= kept_rows(above));
    }
    assert(kept_rows(below) == below) by {
        assert forall|y: int| 0 <= y < below.len() implies !row_is_full(#[trigger] below[y]) by {
            assert(below[y] == rows[full + 1 + y]);
        }
        lemma_clear_without_full_rows(below);
        assert(cleared(below) =~= kept_rows(below));
    }
    assert(kept_rows(from_full) == below) by {
        lemma_kept_rows_split(from_full, 1);
        assert(from_full.subrange(0, 1) =~= seq![rows[full]]);
        assert(from_full.subrange(1, from_full.len() as int) =~= below);
        lemma_kept_rows_single(rows[full]);
        assert(row_is_full(rows[full]));
        assert(Seq::<Seq<Cell>>::empty() + below =~= below);
    }
    lemma_kept_rows_split(rows, full);
}

/// Where exactly one row is full, line clearing removes that row: the rows above
/// it sink by one, the rows below it stay, and the top row is empty.
pub proof fn lemma_clear_one_row(rows: Seq<Seq<Cell>>, full: int)
    requires
        is_board(rows),
        0 <= full < BOARD_HEIGHT,
        forall|y: int| 0 <= y < BOARD_HEIGHT ==> (row_is_full(#[trigger] rows[y]) <==> y == full),
    ensures
        full_row_count(rows) == 1,
        cleared(rows).len() == BOARD_HEIGHT,
        cleared(rows)[0] == empty_row(),
        forall|y: int| 1 <= y <= full ==> #[trigger] cleared(rows)[y] == rows[y - 1],
        forall|y: int| full < y < BOARD_HEIGHT ==> #[trigger] cleared(rows)[y] == rows[y],
{
    lemma_kept_rows_one_full(rows, full);
    let above = rows.subrange(0, full);
    let below = rows.subrange(full + 1, BOARD_HEIGHT as int);
    let kept = above + below;
    assert(kept.len() == BOARD_HEIGHT - 1);
    assert(full_row_count(rows) == 1);
    let after = cleared(rows);
    assert(after.len() == BOARD_HEIGHT);
    assert forall|y: int| 1 <= y <= full implies #[trigger] after[y] == rows[y - 1] by {
        assert(after[y] == kept[y - 1]);
        assert(kept[y - 1] == above[y - 1]);
    }
    assert forall|y: int| full < y < BOARD_HEIGHT implies #[trigger] after[y] == rows[y] by {
        assert(after[y] == kept[y - 1]);
        assert(kept[y - 1] == below[y - 1 - full]);
    }
}

} // verus!
