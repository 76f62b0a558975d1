//! The seven pieces, their rotation matrices and their turns.

use vstd::prelude::*;
use crate::constants::BOARD_WIDTH;
use crate::game::board::Color;

verus! {

/// Largest side of a rotation matrix.
pub const MAX_PIECE_SIZE: usize = 4;

/// Column at which the top-left corner of a fresh piece is placed.
pub const SPAWN_X: i32 = 3;

/// Row at which the top-left corner of a fresh piece is placed.
pub const SPAWN_Y: i32 = 0;

/// The seven shapes.
#[derive(Clone, Copy, Debug, PartialEq, Eq, Structural)]
pub enum PieceType {
    I,
    O,
    T,
    S,
    Z,
    J,
    L,
}

/// The three turns that can be applied to a rotation matrix.
#[derive(Clone, Copy, Debug, PartialEq, Eq, Structural)]
pub enum Rotation {
    Clockwise,
    CounterClockwise,
    Half,
}

/// A grid is square when each of its rows is as long as the grid is tall.
pub open spec fn is_square(grid: Seq<Seq<bool>>) -> bool {
    forall|i: int| 0 <= i < grid.len() ==> (#[trigger] grid[i]).len() == grid.len()
}

/// The grid turned a quarter clockwise: the cell at `(i, j)` moves to `(j, n - 1 - i)`.
pub open spec fn rotate_cw_grid(grid: Seq<Seq<bool>>) -> Seq<Seq<bool>> {
    let n = grid.len() as int;
    Seq::new(grid.len(), |r: int| Seq::new(grid.len(), |c: int| grid[n - 1 - c][r]))
}

/// The grid turned a quarter counter-clockwise: the cell at `(i, j)` moves to `(n - 1 - j, i)`.
pub open spec fn rotate_ccw_grid(grid: Seq<Seq<bool>>) -> Seq<Seq<bool>> {
    let n = grid.len() as int;
    Seq::new(grid.len(), |r: int| Seq::new(grid.len(), |c: int| grid[c][n - 1 - r]))
}

/// The grid turned by a half: the cell at `(i, j)` moves to `(n - 1 - i, n - 1 - j)`.
pub open spec fn rotate_180_grid(grid: Seq<Seq<bool>>) -> Seq<Seq<bool>> {
    let n = grid.len() as int;
    Seq::new(grid.len(), |r: int| Seq::new(grid.len(), |c: int| grid[n - 1 - r][n - 1 - c]))
}

/// The grid after the given turn.
pub open spec fn rotate_grid(grid: Seq<Seq<bool>>, rotation: Rotation) -> Seq<Seq<bool>> {
    match rotation {
        Rotation::Clockwise => rotate_cw_grid(grid),
        Rotation::CounterClockwise => rotate_ccw_grid(grid),
        Rotation::Half => rotate_180_grid(grid),
    }
}

/// Whether the grid has at least one set cell.
pub open spec fn has_block(grid: Seq<Seq<bool>>) -> bool {
    exists|i: int, j: int| 0 <= i < grid.len() && 0 <= j < grid[i].len() && #[trigger] grid[i][j]
}

/// The rotation matrix with which a piece of the given type enters the field.
pub open spec fn spawn_grid(piece_type: PieceType) -> Seq<Seq<bool>> {
    match piece_type {
        PieceType::I => seq![
            seq![false, false, false, false],
            seq![true, true, true, true],
            seq![false, false, false, false],
            seq![false, false, false, false],
        ],
        PieceType::O => seq![seq![true, true], seq![true, true]],
        PieceType::T => seq![
            seq![false, true, false],
            seq![true, true, true],
            seq![false, false, false],
        ],
        PieceType::S => seq![
            seq![false, true, true],
            seq![true, true, false],
            seq![false, false, false],
        ],
        PieceType::Z => seq![
            seq![true, true, false],
            seq![false, true, true],
            seq![false, false, false],
        ],
        PieceType::J => seq![
            seq![true, false, false],
            seq![true, true, true],
            seq![false, false, false],
        ],
        PieceType::L => seq![
            seq![false, false, true],
            seq![true, true, true],
            seq![false, false, false],
        ],
    }
}

/// The colour in which pieces of the given type are drawn.
pub open spec fn color_of(piece_type: PieceType) -> Color {
    match piece_type {
        PieceType::I => Color::Cyan,
        PieceType::O => Color::Yellow,
        PieceType::T => Color::Magenta,
        PieceType::S => Color::Green,
        PieceType::Z => Color::Red,
        PieceType::J => Color::Blue,
        PieceType::L => Color::LightYellow,
    }
}

/// The set cells of the first `upto` columns of one matrix row, left to right, as
/// board coordinates `(x, y)`; the row lies on board row `cy` and starts at column `x`.
pub open spec fn row_cells(row: Seq<bool>, x: int, cy: int, upto: int) -> Seq<(int, int)>
    decreases upto,
{
    if upto <= 0 {
        Seq::empty()
    } else {
        let before = row_cells(row, x, cy, upto - 1);
        if row[upto - 1] {
            before.push((x + upto - 1, cy))
        } else {
            before
        }
    }
}

/// The set cells of the first `upto` rows of a matrix whose top-left corner lies at
/// `(x, y)`, row by row from the top, each row left to right.
pub open spec fn grid_cells(grid: Seq<Seq<bool>>, x: int, y: int, upto: int) -> Seq<(int, int)>
    decreases upto,
{
    if upto <= 0 {
        Seq::empty()
    } else {
        grid_cells(grid, x, y, upto - 1) + row_cells(
            grid[upto - 1],
            x,
            y + upto - 1,
            grid[upto - 1].len() as int,
        )
    }
}

/// Whether `blocks` lists the same cells as `cells`, in the same order.
pub open spec fn same_cells(blocks: Seq<(i32, i32)>, cells: Seq<(int, int)>) -> bool {
    &&& blocks.len() == cells.len()
    &&& forall|k: int|
        0 <= k < blocks.len() ==> (#[trigger] blocks[k]).0 == cells[k].0 && blocks[k].1
            == cells[k].1
}

/// A piece: a type, a rotation matrix, a colour, and the board position of the
/// matrix's top-left corner.
#[derive(Debug, PartialEq, Eq)]
pub struct Piece {
    pub piece_type: PieceType,
    pub shape: Vec<Vec<bool>>,
    pub x: i32,
    pub y: i32,
    pub color: Color,
}

/// The mathematical model of a piece: its rotation matrix as a grid of booleans and
/// the board position of the matrix's top-left corner.
#[verifier::ext_equal]
pub struct PieceView {
    pub piece_type: PieceType,
    pub grid: Seq<Seq<bool>>,
    pub x: int,
    pub y: int,
    pub color: Color,
}

impl PieceView {
    /// The piece as it enters the field.
    pub open spec fn spawn(piece_type: PieceType) -> PieceView {
        PieceView {
            piece_type,
            grid: spawn_grid(piece_type),
            x: SPAWN_X as int,
            y: SPAWN_Y as int,
            color: color_of(piece_type),
        }
    }

    /// Whether the piece covers the board cell in column `cx` of row `cy`.
    pub open spec fn occupies(self, cx: int, cy: int) -> bool {
        let i = cy - self.y;
        let j = cx - self.x;
        0 <= i < self.grid.len() && 0 <= j < self.grid[i].len() && self.grid[i][j]
    }

    /// The covered board cells, row by row from the top, each row left to right.
    pub open spec fn cells(self) -> Seq<(int, int)> {
        grid_cells(self.grid, self.x, self.y, self.grid.len() as int)
    }

    /// The same piece with its matrix turned.
    pub open spec fn rotated(self, rotation: Rotation) -> PieceView {
        PieceView { grid: rotate_grid(self.grid, rotation), ..self }
    }

    /// The same piece moved by `(dx, dy)`.
    pub open spec fn translated(self, dx: int, dy: int) -> PieceView {
        PieceView { x: self.x + dx, y: self.y + dy, ..self }
    }

    /// The same piece with its corner back at the spawn position; the matrix stays as it is.
    pub open spec fn at_spawn(self) -> PieceView {
        PieceView { x: SPAWN_X as int, y: SPAWN_Y as int, ..self }
    }

    /// A piece is well formed when its matrix is square with a side of at most
    /// `MAX_PIECE_SIZE`, has at least one set cell, and every matrix cell has board
    /// coordinates that fit in an `i32`.
    pub open spec fn wf(self) -> bool {
        &&& self.grid.len() <= MAX_PIECE_SIZE
        &&& is_square(self.grid)
        &&& has_block(self.grid)
        &&& i32::MIN <= self.x
        &&& self.x + self.grid.len() - 1 <= i32::MAX
        &&& i32::MIN <= self.y
        &&& self.y + self.grid.len() - 1 <= i32::MAX
    }
}

impl View for Piece {
    type V = PieceView;

    open spec fn view(&self) -> PieceView {
        PieceView {
            piece_type: self.piece_type,
            grid: self.shape.deep_view(),
            x: self.x as int,
            y: self.y as int,
            color: self.color,
        }
    }
}

/// A deep view of a matrix indexes like the matrix itself.
pub proof fn lemma_grid_index(shape: Vec<Vec<bool>>)
    ensures
        shape.deep_view().len() == shape.len(),
        forall|i: int| 0 <= i < shape.len() ==> #[trigger] shape.deep_view()[i] == shape[i]@,
{
}

impl PieceType {
    /// The colour in which pieces of this type are drawn.
    pub fn color(self) -> (color: Color)
        ensures
            color == color_of(self),
    {
        match self {
            PieceType::I => Color::Cyan,
            PieceType::O => Color::Yellow,
            PieceType::T => Color::Magenta,
            PieceType::S => Color::Green,
            PieceType::Z => Color::Red,
            PieceType::J => Color::Blue,
            PieceType::L => Color::LightYellow,
        }
    }
}

/// Builds one matrix row of the given cells.
fn row3(a: bool, b: bool, c: bool) -> (row: Vec<bool>)
    ensures
        row@ == seq![a, b, c],
{
    let mut row: Vec<bool> = Vec::new();
    row.push(a);
    row.push(b);
    row.push(c);
    row
}

/// Builds a matrix of three rows.
fn grid3(top: Vec<bool>, middle: Vec<bool>, bottom: Vec<bool>) -> (shape: Vec<Vec<bool>>)
    ensures
        shape.deep_view() == seq![top@, middle@, bottom@],
{
    let mut shape: Vec<Vec<bool>> = Vec::new();
    shape.push(top);
    shape.push(middle);
    shape.push(bottom);
    proof {
        lemma_grid_index(shape);
    }
    shape
}

/// Copies a rotation matrix cell by cell.
fn copy_shape(shape: &Vec<Vec<bool>>) -> (copy: Vec<Vec<bool>>)
    ensures
        copy.deep_view() == shape.deep_view(),
{
    let mut copy: Vec<Vec<bool>> = Vec::new();
    let mut i: usize = 0;
    while i < shape.len()
        invariant
            i <= shape.len(),
            copy.len() == i,
            forall|k: int| 0 <= k < i ==> (#[trigger] copy[k])@ == shape[k]@,
        decreases shape.len() - i,
    {
        let mut row: Vec<bool> = Vec::new();
        let mut j: usize = 0;
        while j < shape[i].len()
            invariant
                i < shape.len(),
                j <= shape[i as int].len(),
                row.len() == j,
                forall|k: int| 0 <= k < j ==> #[trigger] row[k] == shape[i as int][k],
            decreases shape[i as int].len() - j,
        {
            row.push(shape[i][j]);
            j += 1;
        }
        copy.push(row);
        i += 1;
    }
    proof {
        lemma_grid_index(copy);
        lemma_grid_index(*shape);
    }
    copy
}

impl Clone for Piece {
    fn clone(&self) -> (copy: Piece)
        ensures
            copy@ == self@,
    {
        Piece {
            piece_type: self.piece_type,
            shape: copy_shape(&self.shape),
            x: self.x,
            y: self.y,
            color: self.color,
        }
    }
}

impl Piece {
    /// A fresh piece of the given type: its spawn matrix and colour, at the spawn position.
    pub fn new(piece_type: PieceType) -> (piece: Piece)
        ensures
            piece@ == PieceView::spawn(piece_type),
            piece@.wf(),
    {
        let shape = match piece_type {
            PieceType::I => {
                let mut shape: Vec<Vec<bool>> = Vec::new();
                shape.push(vec![false, false, false, false]);
                shape.push(vec![true, true, true, true]);
                shape.push(vec![false, false, false, false]);
                shape.push(vec![false, false, false, false]);
                proof {
                    lemma_grid_index(shape);
                }
                shape
            },
            PieceType::O => {
                let mut shape: Vec<Vec<bool>> = Vec::new();
                shape.push(vec![true, true]);
                shape.push(vec![true, true]);
                proof {
                    lemma_grid_index(shape);
                }
                shape
            },
            PieceType::T => grid3(
                row3(false, true, false),
                row3(true, true, true),
                row3(false, false, false),
            ),
            PieceType::S => grid3(
                row3(false, true, true),
                row3(true, true, false),
                row3(false, false, false),
            ),
            PieceType::Z => grid3(
                row3(true, true, false),
                row3(false, true, true),
                row3(false, false, false),
            ),
            PieceType::J => grid3(
                row3(true, false, false),
                row3(true, true, true),
                row3(false, false, false),
            ),
            PieceType::L => grid3(
                row3(false, false, true),
                row3(true, true, true),
                row3(false, false, false),
            ),
        };
        let piece = Piece { piece_type, shape, x: SPAWN_X, y: SPAWN_Y, color: piece_type.color() };
        proof {
            lemma_spawn_wf(piece_type);
        }
        piece
    }

    /// The side of the rotation matrix.
    pub fn size(&self) -> (n: usize)
        ensures
            n == self@.grid.len(),
    {
        self.shape.len()
    }

    /// The piece with its matrix turned; position, type and colour stay.
    pub fn rotate(&self, rotation: Rotation) -> (rotated: Piece)
        requires
            self@.wf(),
        ensures
            rotated@ == self@.rotated(rotation),
            rotated@.wf(),
    {
        let n = self.shape.len();
        let ghost grid = self@.grid;
        let ghost turned = rotate_grid(grid, rotation);
        proof {
            lemma_grid_index(self.shape);
        }
        let mut shape: Vec<Vec<bool>> = Vec::new();
        let mut r: usize = 0;
        while r < n
            invariant
                r <= n,
                n == self.shape.len(),
                n <= MAX_PIECE_SIZE,
                grid == self.shape.deep_view(),
                is_square(grid),
                forall|i: int| 0 <= i < n ==> #[trigger] grid[i] == self.shape[i]@,
                shape.len() == r,
                turned == rotate_grid(grid, rotation),
                forall|k: int| 0 <= k < r ==> (#[trigger] shape[k])@ == turned[k],
            decreases n - r,
        {
            let mut row: Vec<bool> = Vec::new();
            let mut c: usize = 0;
            while c < n
                invariant
                    r < n,
                    c <= n,
                    n == self.shape.len(),
                    grid == self.shape.deep_view(),
                    is_square(grid),
                    forall|i: int| 0 <= i < n ==> #[trigger] grid[i] == self.shape[i]@,
                    row.len() == c,
                    turned == rotate_grid(grid, rotation),
                    forall|k: int| 0 <= k < c ==> #[trigger] row[k] == turned[r as int][k],
                decreases n - c,
            {
                let cell = match rotation {
                    Rotation::Clockwise => {
                        assert(grid[n - 1 - c].len() == n);
                        self.shape[n - 1 - c][r]
                    },
                    Rotation::CounterClockwise => {
                        assert(grid[c as int].len() == n);
                        self.shape[c][n - 1 - r]
                    },
                    Rotation::Half => {
                        assert(grid[n - 1 - r].len() == n);
                        self.shape[n - 1 - r][n - 1 - c]
                    },
                };
                row.push(cell);
                c += 1;
            }
            shape.push(row);
            r += 1;
        }
        proof {
            lemma_grid_index(shape);
            lemma_rotation_keeps_wf(self@, rotation);
        }
        Piece { piece_type: self.piece_type, shape, x: self.x, y: self.y, color: self.color }
    }

    /// The piece turned a quarter clockwise.
    pub fn rotate_clockwise(&self) -> (rotated: Piece)
        requires
            self@.wf(),
        ensures
            rotated@ == self@.rotated(Rotation::Clockwise),
            rotated@.grid == rotate_cw_grid(self@.grid),
            rotated@.wf(),
    {
        self.rotate(Rotation::Clockwise)
    }

    /// The piece turned a quarter counter-clockwise.
    pub fn rotate_counter_clockwise(&self) -> (rotated: Piece)
        requires
            self@.wf(),
        ensures
            rotated@ == self@.rotated(Rotation::CounterClockwise),
            rotated@.grid == rotate_ccw_grid(self@.grid),
            rotated@.wf(),
    {
        self.rotate(Rotation::CounterClockwise)
    }

    /// The piece turned by a half.
    pub fn rotate_180(&self) -> (rotated: Piece)
        requires
            self@.wf(),
        ensures
            rotated@ == self@.rotated(Rotation::Half),
            rotated@.grid == rotate_180_grid(self@.grid),
            rotated@.wf(),
    {
        self.rotate(Rotation::Half)
    }

    /// The piece moved by `(dx, dy)`, or `None` where a matrix cell of the moved piece
    /// would have a coordinate outside `i32`.
    pub fn translate(&self, dx: i32, dy: i32) -> (moved: Option<Piece>)
        requires
            self@.wf(),
        ensures
            moved is Some <==> self@.translated(dx as int, dy as int).wf(),
            moved is Some ==> moved->0@ == self@.translated(dx as int, dy as int),
    {
        let n = self.shape.len();
        let reach: i32 = if n == 0 {
            0
        } else {
            (n - 1) as i32
        };
        let x = match self.x.checked_add(dx) {
            Some(x) => x,
            None => {
                return None;
            },
        };
        let y = match self.y.checked_add(dy) {
            Some(y) => y,
            None => {
                return None;
            },
        };
        if x > i32::MAX - reach || y > i32::MAX - reach {
            return None;
        }
        Some(
            Piece {
                piece_type: self.piece_type,
                shape: copy_shape(&self.shape),
                x,
                y,
                color: self.color,
            },
        )
    }

    /// The board cells that the piece covers, as `(x, y)` pairs, row by row from the
    /// top, each row left to right.
    pub fn get_blocks(&self) -> (blocks: Vec<(i32, i32)>)
        requires
            self@.wf(),
        ensures
            same_cells(blocks@, self@.cells()),
    {
        let n = self.shape.len();
        let ghost grid = self@.grid;
        let ghost x = self.x as int;
        let ghost y = self.y as int;
        proof {
            lemma_grid_index(self.shape);
        }
        let mut blocks: Vec<(i32, i32)> = Vec::new();
        let mut i: usize = 0;
        while i < n
            invariant
                i <= n,
                n == self.shape.len(),
                n <= MAX_PIECE_SIZE,
                self@.wf(),
                grid == self@.grid,
                x == self.x,
                y == self.y,
                forall|k: int| 0 <= k < n ==> #[trigger] grid[k] == self.shape[k]@,
                same_cells(blocks@, grid_cells(grid, x, y, i as int)),
            decreases n - i,
        {
            let ghost done = grid_cells(grid, x, y, i as int);
            let ghost cy = y + i;
            let mut j: usize = 0;
            while j < n
                invariant
                    i < n,
                    j <= n,
                    n == self.shape.len(),
                    n <= MAX_PIECE_SIZE,
                    self@.wf(),
                    grid == self@.grid,
                    x == self.x,
                    y == self.y,
                    cy == y + i,
                    grid[i as int] == self.shape[i as int]@,
                    grid[i as int].len() == n,
                    same_cells(blocks@, done + row_cells(grid[i as int], x, cy, j as int)),
                decreases n - j,
            {
                if self.shape[i][j] {
                    blocks.push((self.x + j as i32, self.y + i as i32));
                }
                j += 1;
            }
            i += 1;
        }
        blocks
    }
}

/// The spawn column centres a matrix of the largest side on the board.
pub proof fn lemma_spawn_column_centred()
    ensures
        SPAWN_X == (BOARD_WIDTH - MAX_PIECE_SIZE) / 2,
{
}

/// Every spawn piece is well formed.
pub proof fn lemma_spawn_wf(piece_type: PieceType)
    ensures
        PieceView::spawn(piece_type).wf(),
{
}

/// Turning a matrix keeps it square, of the same side, and keeps a set cell in it.
pub proof fn lemma_rotation_keeps_wf(piece: PieceView, rotation: Rotation)
    requires
        piece.wf(),
    ensures
        piece.rotated(rotation).wf(),
{
    let grid = piece.grid;
    let n = grid.len() as int;
    let turned = rotate_grid(grid, rotation);
    let (i, j) = choose|i: int, j: int|
        0 <= i < grid.len() && 0 <= j < grid[i].len() && #[trigger] grid[i][j];
    match rotation {
        Rotation::Clockwise => {
            assert(turned[j][n - 1 - i] == grid[i][j]);
        },
        Rotation::CounterClockwise => {
            assert(turned[n - 1 - j][i] == grid[i][j]);
        },
        Rotation::Half => {
            assert(turned[n - 1 - i][n - 1 - j] == grid[i][j]);
        },
    }
}

/// Four quarter turns clockwise give the matrix back.
pub proof fn lemma_four_clockwise_turns(grid: Seq<Seq<bool>>)
    requires
        is_square(grid),
    ensures
        rotate_cw_grid(rotate_cw_grid(rotate_cw_grid(rotate_cw_grid(grid)))) == grid,
{
    let once = rotate_cw_grid(grid);
    let twice = rotate_cw_grid(once);
    let thrice = rotate_cw_grid(twice);
    let back = rotate_cw_grid(thrice);
    assert(back =~~= grid);
}

/// Four quarter turns counter-clockwise give the matrix back.
pub proof fn lemma_four_counter_clockwise_turns(grid: Seq<Seq<bool>>)
    requires
        is_square(grid),
    ensures
        rotate_ccw_grid(rotate_ccw_grid(rotate_ccw_grid(rotate_ccw_grid(grid)))) == grid,
{
    let once = rotate_ccw_grid(grid);
    let twice = rotate_ccw_grid(once);
    let thrice = rotate_ccw_grid(twice);
    let back = rotate_ccw_grid(thrice);
    assert(back =~~= grid);
}

/// A quarter turn one way followed by a quarter turn the other way gives the matrix back.
pub proof fn lemma_opposite_turns_cancel(grid: Seq<Seq<bool>>)
    requires
        is_square(grid),
    ensures
        rotate_ccw_grid(rotate_cw_grid(grid)) == grid,
        rotate_cw_grid(rotate_ccw_grid(grid)) == grid,
{
    assert(rotate_ccw_grid(rotate_cw_grid(grid)) =~~= grid);
    assert(rotate_cw_grid(rotate_ccw_grid(grid)) =~~= grid);
}

/// A half turn is two quarter turns, and two half turns give the matrix back.
pub proof fn lemma_half_turn(grid: Seq<Seq<bool>>)
    requires
        is_square(grid),
    ensures
        rotate_180_grid(grid) == rotate_cw_grid(rotate_cw_grid(grid)),
        rotate_180_grid(grid) == rotate_ccw_grid(rotate_ccw_grid(grid)),
        rotate_180_grid(rotate_180_grid(grid)) == grid,
{
    assert(rotate_180_grid(grid) =~~= rotate_cw_grid(rotate_cw_grid(grid)));
    assert(rotate_180_grid(grid) =~~= rotate_ccw_grid(rotate_ccw_grid(grid)));
    assert(rotate_180_grid(rotate_180_grid(grid)) =~~= grid);
}

/// The cells listed for a row are its set cells among the first `upto`.
proof fn lemma_row_cells_cover(row: Seq<bool>, x: int, cy: int, upto: int)
    requires
        0 <= upto <= row.len(),
    ensures
        forall|c: (int, int)| #[trigger]
            row_cells(row, x, cy, upto).contains(c) <==> (c.1 == cy && x <= c.0 < x + upto
                && row[c.0 - x]),
    decreases upto,
{
    if upto > 0 {
        lemma_row_cells_cover(row, x, cy, upto - 1);
        let before = row_cells(row, x, cy, upto - 1);
        let cell = (x + upto - 1, cy);
        assert forall|c: (int, int)| #[trigger]
            row_cells(row, x, cy, upto).contains(c) <==> (c.1 == cy && x <= c.0 < x + upto
                && row[c.0 - x]) by {
            vstd::seq_lib::lemma_seq_contains_after_push(before, cell, c);
        }
    } else {
        assert forall|c: (int, int)| !(#[trigger] row_cells(row, x, cy, upto).contains(c)) by {}
    }
}

/// The cells listed for a matrix are the set cells of its first `upto` rows.
proof fn lemma_grid_cells_cover(grid: Seq<Seq<bool>>, x: int, y: int, upto: int)
    requires
        0 <= upto <= grid.len(),
    ensures
        forall|c: (int, int)| #[trigger]
            grid_cells(grid, x, y, upto).contains(c) <==> (y <= c.1 < y + upto && x <= c.0 < x
                + grid[c.1 - y].len() && grid[c.1 - y][c.0 - x]),
    decreases upto,
{
    if upto > 0 {
        lemma_grid_cells_cover(grid, x, y, upto - 1);
        let row = grid[upto - 1];
        lemma_row_cells_cover(row, x, y + upto - 1, row.len() as int);
        let above = grid_cells(grid, x, y, upto - 1);
        let last = row_cells(row, x, y + upto - 1, row.len() as int);
        assert forall|c: (int, int)| #[trigger]
            grid_cells(grid, x, y, upto).contains(c) <==> (y <= c.1 < y + upto && x <= c.0 < x
                + grid[c.1 - y].len() && grid[c.1 - y][c.0 - x]) by {
            vstd::seq_lib::lemma_seq_concat_contains_all_elements(above, last, c);
        }
    } else {
        assert forall|c: (int, int)| !(#[trigger] grid_cells(grid, x, y, upto).contains(c)) by {}
    }
}

/// The listed cells of a piece are exactly the board cells that it covers.
pub proof fn lemma_cells_cover(piece: PieceView)
    ensures
        forall|cx: int, cy: int| #[trigger]
            piece.cells().contains((cx, cy)) <==> piece.occupies(cx, cy),
{
    lemma_grid_cells_cover(piece.grid, piece.x, piece.y, piece.grid.len() as int);
}

} // verus!
