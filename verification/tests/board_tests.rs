use tstris::constants::{BOARD_HEIGHT, BOARD_WIDTH};
use tstris::game::board::{
    clear_full_rows, empty_board, is_full_row, piece_fits, stamp_piece, stamp_preview, Board,
    Cell, Color,
};
use tstris::game::piece::{Piece, PieceType};
use tstris::game::validate::is_settled_board;

fn filled(color: Color) -> Cell {
    Cell::Filled(color)
}

fn fill_row(board: &mut Board, y: usize, color: Color) {
    for x in 0..BOARD_WIDTH {
        board[y][x] = filled(color);
    }
}

fn piece_at(piece_type: PieceType, x: i32, y: i32) -> Piece {
    let mut piece = Piece::new(piece_type);
    piece.x = x;
    piece.y = y;
    piece
}

#[test]
fn board_is_ten_by_twenty() {
    assert_eq!(BOARD_WIDTH, 10);
    assert_eq!(BOARD_HEIGHT, 20);
    let board = empty_board();
    assert_eq!(board.len(), 20);
    assert_eq!(board[0].len(), 10);
}

#[test]
fn empty_board_has_only_empty_cells() {
    let board = empty_board();
    for row in board.iter() {
        for cell in row.iter() {
            assert_eq!(*cell, Cell::Empty);
        }
    }
}

#[test]
fn is_full_row_wants_every_cell() {
    let mut board = empty_board();
    assert!(!is_full_row(&board[19]));
    fill_row(&mut board, 19, Color::Red);
    assert!(is_full_row(&board[19]));
    board[19][9] = Cell::Empty;
    assert!(!is_full_row(&board[19]));
    board[19][9] = Cell::Preview(Color::Red);
    assert!(is_full_row(&board[19]));
}

#[test]
fn clear_leaves_a_board_without_full_rows_alone() {
    let mut board = empty_board();
    board[0][0] = filled(Color::Cyan);
    board[0][9] = filled(Color::Blue);
    board[7][3] = filled(Color::Green);
    board[19][5] = filled(Color::Red);
    for x in 0..9 {
        board[18][x] = filled(Color::Yellow);
    }
    let before = board;
    assert_eq!(clear_full_rows(&mut board), 0);
    assert_eq!(board, before);
}

#[test]
fn clear_on_an_empty_board_returns_zero() {
    let mut board = empty_board();
    assert_eq!(clear_full_rows(&mut board), 0);
    assert_eq!(board, empty_board());
}

#[test]
fn clear_removes_one_full_row_and_shifts_the_rest() {
    let mut board = empty_board();
    fill_row(&mut board, 19, Color::Red);
    board[18][2] = filled(Color::Green);
    board[17][4] = filled(Color::Blue);
    assert_eq!(clear_full_rows(&mut board), 1);
    let mut expected = empty_board();
    expected[19][2] = filled(Color::Green);
    expected[18][4] = filled(Color::Blue);
    assert_eq!(board, expected);
}

#[test]
fn clear_removes_rows_that_are_apart() {
    let mut board = empty_board();
    fill_row(&mut board, 19, Color::Red);
    board[18][0] = filled(Color::Green);
    fill_row(&mut board, 17, Color::Blue);
    board[16][1] = filled(Color::Cyan);
    board[15][2] = filled(Color::Yellow);
    fill_row(&mut board, 14, Color::Magenta);
    board[13][3] = filled(Color::LightYellow);
    assert_eq!(clear_full_rows(&mut board), 3);
    let mut expected = empty_board();
    expected[19][0] = filled(Color::Green);
    expected[18][1] = filled(Color::Cyan);
    expected[17][2] = filled(Color::Yellow);
    expected[16][3] = filled(Color::LightYellow);
    assert_eq!(board, expected);
}

#[test]
fn clear_removes_four_rows_at_once() {
    let mut board = empty_board();
    for y in 16..20 {
        fill_row(&mut board, y, Color::Cyan);
    }
    board[15][9] = filled(Color::Red);
    assert_eq!(clear_full_rows(&mut board), 4);
    let mut expected = empty_board();
    expected[19][9] = filled(Color::Red);
    assert_eq!(board, expected);
}

#[test]
fn clear_empties_a_board_of_full_rows() {
    let mut board = empty_board();
    for y in 0..BOARD_HEIGHT {
        fill_row(&mut board, y, Color::Blue);
    }
    assert_eq!(clear_full_rows(&mut board), 20);
    assert_eq!(board, empty_board());
}

#[test]
fn clear_keeps_the_top_row_when_nothing_is_full() {
    let mut board = empty_board();
    for y in 0..BOARD_HEIGHT {
        board[y][y % BOARD_WIDTH] = filled(Color::Green);
    }
    let before = board;
    assert_eq!(clear_full_rows(&mut board), 0);
    assert_eq!(board, before);
}

#[test]
fn clear_twice_is_clear_once() {
    let mut board = empty_board();
    fill_row(&mut board, 19, Color::Red);
    fill_row(&mut board, 10, Color::Red);
    board[18][2] = filled(Color::Green);
    board[3][4] = filled(Color::Blue);
    assert_eq!(clear_full_rows(&mut board), 2);
    let once = board;
    assert_eq!(clear_full_rows(&mut board), 0);
    assert_eq!(board, once);
}

#[test]
fn piece_fits_on_an_empty_board() {
    let board = empty_board();
    for piece_type in [PieceType::I, PieceType::O, PieceType::T] {
        assert!(piece_fits(&board, &Piece::new(piece_type)));
    }
}

#[test]
fn piece_does_not_fit_beyond_the_walls() {
    let board = empty_board();
    assert!(piece_fits(&board, &piece_at(PieceType::O, 0, 5)));
    assert!(!piece_fits(&board, &piece_at(PieceType::O, -1, 5)));
    assert!(piece_fits(&board, &piece_at(PieceType::O, 8, 5)));
    assert!(!piece_fits(&board, &piece_at(PieceType::O, 9, 5)));
    assert!(piece_fits(&board, &piece_at(PieceType::I, 6, 5)));
    assert!(!piece_fits(&board, &piece_at(PieceType::I, 7, 5)));
}

#[test]
fn empty_matrix_columns_may_lie_beyond_the_walls() {
    let board = empty_board();
    let mut upright = Piece::new(PieceType::I).rotate_clockwise();
    upright.x = -2;
    upright.y = 3;
    assert!(piece_fits(&board, &upright));
    upright.x = -3;
    assert!(!piece_fits(&board, &upright));
    upright.x = 7;
    assert!(piece_fits(&board, &upright));
    upright.x = 8;
    assert!(!piece_fits(&board, &upright));
}

#[test]
fn piece_does_not_fit_below_the_floor() {
    let board = empty_board();
    assert!(piece_fits(&board, &piece_at(PieceType::O, 4, 18)));
    assert!(!piece_fits(&board, &piece_at(PieceType::O, 4, 19)));
    // The I piece lies in the second row of its matrix.
    assert!(piece_fits(&board, &piece_at(PieceType::I, 3, 18)));
    assert!(!piece_fits(&board, &piece_at(PieceType::I, 3, 19)));
}

#[test]
fn piece_fits_above_the_top_row() {
    let mut board = empty_board();
    fill_row(&mut board, 0, Color::Red);
    assert!(piece_fits(&board, &piece_at(PieceType::O, 4, -2)));
    assert!(piece_fits(&board, &piece_at(PieceType::O, 4, -50)));
    assert!(!piece_fits(&board, &piece_at(PieceType::O, 4, -1)));
    assert!(!piece_fits(&board, &piece_at(PieceType::O, -1, -5)));
    assert!(!piece_fits(&board, &piece_at(PieceType::O, 9, -5)));
}

#[test]
fn piece_does_not_fit_on_a_filled_cell() {
    let mut board = empty_board();
    board[10][5] = filled(Color::Green);
    assert!(!piece_fits(&board, &piece_at(PieceType::O, 4, 9)));
    assert!(!piece_fits(&board, &piece_at(PieceType::O, 5, 10)));
    assert!(piece_fits(&board, &piece_at(PieceType::O, 6, 9)));
    assert!(piece_fits(&board, &piece_at(PieceType::O, 4, 11)));
    // The T piece has a hole at the top left of its matrix.
    assert!(piece_fits(&board, &piece_at(PieceType::T, 5, 10)));
    assert!(!piece_fits(&board, &piece_at(PieceType::T, 4, 10)));
}

#[test]
fn stamp_piece_fills_the_covered_cells() {
    let mut board = empty_board();
    stamp_piece(&mut board, &piece_at(PieceType::T, 3, 17));
    let mut expected = empty_board();
    expected[17][4] = filled(Color::Magenta);
    expected[18][3] = filled(Color::Magenta);
    expected[18][4] = filled(Color::Magenta);
    expected[18][5] = filled(Color::Magenta);
    assert_eq!(board, expected);
}

#[test]
fn stamp_piece_leaves_out_cells_off_the_board() {
    let mut board = empty_board();
    stamp_piece(&mut board, &piece_at(PieceType::O, 4, -1));
    let mut expected = empty_board();
    expected[0][4] = filled(Color::Yellow);
    expected[0][5] = filled(Color::Yellow);
    assert_eq!(board, expected);

    let mut board = empty_board();
    stamp_piece(&mut board, &piece_at(PieceType::O, 9, 19));
    let mut expected = empty_board();
    expected[19][9] = filled(Color::Yellow);
    assert_eq!(board, expected);
}

#[test]
fn stamp_piece_paints_over_what_is_there() {
    let mut board = empty_board();
    board[5][5] = filled(Color::Red);
    stamp_piece(&mut board, &piece_at(PieceType::O, 5, 5));
    assert_eq!(board[5][5], filled(Color::Yellow));
}

#[test]
fn stamp_preview_marks_only_empty_cells() {
    let mut board = empty_board();
    board[18][4] = filled(Color::Red);
    stamp_preview(&mut board, &piece_at(PieceType::O, 4, 18));
    let mut expected = empty_board();
    expected[18][4] = filled(Color::Red);
    expected[18][5] = Cell::Preview(Color::Yellow);
    expected[19][4] = Cell::Preview(Color::Yellow);
    expected[19][5] = Cell::Preview(Color::Yellow);
    assert_eq!(board, expected);
}

#[test]
fn settled_board_has_no_preview() {
    let mut board = empty_board();
    assert!(is_settled_board(&board));
    board[4][4] = filled(Color::Blue);
    assert!(is_settled_board(&board));
    board[19][9] = Cell::Preview(Color::Blue);
    assert!(!is_settled_board(&board));
}
