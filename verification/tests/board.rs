use tetris_engine::board::{BOARD_HEIGHT, BOARD_WIDTH};
use tetris_engine::catalog::PIECES_SET;
use tetris_engine::{Board, Color, Piece, Point};

fn piece(color: Color, index: usize) -> Piece {
    Piece::new(color, PIECES_SET[index]).unwrap()
}

fn at(x: i32, y: i32) -> Point {
    Point { x, y }
}

fn lock(board: &mut Board, color: Color, index: usize, x: i32, y: i32) {
    let piece = piece(color, index);
    assert!(!board.collision(&piece, at(x, y)));
    board.lock_piece(&piece, at(x, y));
}

/// Fills row `y` with two lying bars and the lower half of a square; the
/// upper half of the square lands in columns 8 and 9 of the row above.
fn fill_row(board: &mut Board, y: i32, bars: Color, square: Color) {
    lock(board, bars, 0, 0, y);
    lock(board, bars, 0, 4, y);
    lock(board, square, 6, 8, y - 1);
}

fn row(board: &Board, y: i32) -> Vec<Option<Color>> {
    (0..10).map(|x| board.cell(at(x, y))).collect()
}

fn rows(board: &Board) -> Vec<Vec<Option<Color>>> {
    (0..20).map(|y| row(board, y)).collect()
}

fn empty_row() -> Vec<Option<Color>> {
    vec![None; 10]
}

fn row_with(cells: &[(usize, Color)]) -> Vec<Option<Color>> {
    let mut row = empty_row();
    for &(x, color) in cells {
        row[x] = Some(color);
    }
    row
}

#[test]
fn the_board_is_ten_by_twenty() {
    assert_eq!(BOARD_WIDTH, 10);
    assert_eq!(BOARD_HEIGHT, 20);
}

#[test]
fn a_new_board_is_empty() {
    let board = Board::new();
    for y in 0..20 {
        assert_eq!(row(&board, y), empty_row());
    }
}

#[test]
fn cells_outside_the_board_hold_nothing() {
    let mut board = Board::new();
    lock(&mut board, Color::Red, 0, 0, 0);
    assert_eq!(board.cell(at(0, 0)), Some(Color::Red));
    assert_eq!(board.cell(at(-1, 0)), None);
    assert_eq!(board.cell(at(0, -1)), None);
    assert_eq!(board.cell(at(10, 0)), None);
    assert_eq!(board.cell(at(0, 20)), None);
    assert_eq!(board.cell(at(i32::MIN, i32::MAX)), None);
}

#[test]
fn no_collision_inside_an_empty_board() {
    let board = Board::new();
    let bar = piece(Color::Red, 0);
    assert!(!board.collision(&bar, at(0, 0)));
    assert!(!board.collision(&bar, at(6, 0)));
    assert!(!board.collision(&bar, at(0, 19)));
    assert!(!board.collision(&bar, at(6, 19)));
    let standing = piece(Color::Red, 1);
    assert!(!board.collision(&standing, at(0, 0)));
    assert!(!board.collision(&standing, at(9, 16)));
}

#[test]
fn collision_when_a_cell_is_left_of_the_board() {
    let board = Board::new();
    assert!(board.collision(&piece(Color::Red, 0), at(-1, 5)));
    assert!(board.collision(&piece(Color::Red, 1), at(-1, 5)));
}

#[test]
fn collision_when_a_cell_is_right_of_the_board() {
    let board = Board::new();
    assert!(board.collision(&piece(Color::Red, 0), at(7, 5)));
    assert!(board.collision(&piece(Color::Red, 1), at(10, 5)));
}

#[test]
fn collision_when_a_cell_is_above_the_board() {
    let board = Board::new();
    assert!(board.collision(&piece(Color::Red, 0), at(3, -1)));
}

#[test]
fn collision_when_a_cell_is_below_the_board() {
    let board = Board::new();
    assert!(board.collision(&piece(Color::Red, 0), at(3, 20)));
    assert!(board.collision(&piece(Color::Red, 1), at(3, 17)));
}

#[test]
fn an_origin_off_the_board_is_fine_when_the_cells_are_on_it() {
    let board = Board::new();
    // This shape has no cell in its own top left corner.
    let tee = piece(Color::Red, 9);
    assert_eq!(tee.get(), [[0, 1], [1, 1], [2, 1], [1, 2]]);
    assert!(!board.collision(&tee, at(0, -1)));
    assert!(board.collision(&tee, at(0, -2)));
    let hook = piece(Color::Red, 18);
    assert_eq!(hook.get(), [[2, 0], [0, 1], [1, 1], [2, 1]]);
    assert!(board.collision(&hook, at(-1, 0)));
}

#[test]
fn collision_at_the_far_ends_of_the_coordinates() {
    let board = Board::new();
    let bar = piece(Color::Red, 0);
    assert!(board.collision(&bar, at(i32::MAX, 0)));
    assert!(board.collision(&bar, at(i32::MIN, 0)));
    assert!(board.collision(&bar, at(0, i32::MAX)));
    assert!(board.collision(&bar, at(0, i32::MIN)));
    assert!(board.collision(&bar, at(i32::MAX, i32::MAX)));
}

#[test]
fn collision_with_an_occupied_cell() {
    let mut board = Board::new();
    lock(&mut board, Color::Blue, 6, 4, 10);
    let bar = piece(Color::Red, 0);
    assert!(board.collision(&bar, at(1, 10)));
    assert!(board.collision(&bar, at(2, 11)));
    assert!(board.collision(&bar, at(5, 11)));
    assert!(!board.collision(&bar, at(0, 10)));
    assert!(!board.collision(&bar, at(6, 11)));
    assert!(!board.collision(&bar, at(3, 9)));
    assert!(!board.collision(&bar, at(3, 12)));
}

#[test]
fn collision_agrees_with_the_cells_on_every_origin() {
    let mut board = Board::new();
    lock(&mut board, Color::Blue, 6, 4, 10);
    lock(&mut board, Color::Green, 0, 0, 19);
    lock(&mut board, Color::Brown, 1, 9, 0);
    for index in 0..19 {
        let piece = piece(Color::Red, index);
        let cells = piece.get();
        for oy in -5..25 {
            for ox in -5..15 {
                let mut expected = false;
                for cell in cells {
                    let x = ox + cell[0] as i32;
                    let y = oy + cell[1] as i32;
                    let inside = 0 <= x && x < 10 && 0 <= y && y < 20;
                    if !inside || board.cell(at(x, y)).is_some() {
                        expected = true;
                    }
                }
                assert_eq!(board.collision(&piece, at(ox, oy)), expected);
            }
        }
    }
}

#[test]
fn collision_leaves_the_board_as_it_is() {
    let mut board = Board::new();
    lock(&mut board, Color::Blue, 6, 4, 10);
    let before = rows(&board);
    board.collision(&piece(Color::Red, 0), at(3, 10));
    board.collision(&piece(Color::Red, 0), at(-3, 30));
    assert_eq!(rows(&board), before);
}

#[test]
fn lock_writes_the_colour_into_the_four_cells() {
    let mut board = Board::new();
    lock(&mut board, Color::Orange, 7, 3, 5);
    let mut expected = vec![empty_row(); 20];
    expected[5][4] = Some(Color::Orange);
    expected[6][3] = Some(Color::Orange);
    expected[6][4] = Some(Color::Orange);
    expected[6][5] = Some(Color::Orange);
    assert_eq!(rows(&board), expected);
}

#[test]
fn lock_keeps_what_was_locked_before() {
    let mut board = Board::new();
    lock(&mut board, Color::Orange, 0, 0, 19);
    lock(&mut board, Color::Purple, 0, 4, 19);
    assert_eq!(
        row(&board, 19),
        row_with(&[
            (0, Color::Orange),
            (1, Color::Orange),
            (2, Color::Orange),
            (3, Color::Orange),
            (4, Color::Purple),
            (5, Color::Purple),
            (6, Color::Purple),
            (7, Color::Purple),
        ])
    );
    for y in 0..19 {
        assert_eq!(row(&board, y), empty_row());
    }
}

#[test]
fn clearing_an_empty_board_clears_nothing() {
    let mut board = Board::new();
    assert_eq!(board.clear_lines(), 0);
    assert_eq!(rows(&board), vec![empty_row(); 20]);
}

#[test]
fn clearing_without_a_full_row_changes_nothing() {
    let mut board = Board::new();
    lock(&mut board, Color::Orange, 0, 0, 19);
    lock(&mut board, Color::Purple, 0, 4, 19);
    lock(&mut board, Color::Blue, 1, 9, 12);
    let before = rows(&board);
    assert_eq!(board.clear_lines(), 0);
    assert_eq!(rows(&board), before);
}

#[test]
fn clearing_the_bottom_row() {
    let mut board = Board::new();
    fill_row(&mut board, 19, Color::Red, Color::Green);
    lock(&mut board, Color::Blue, 1, 0, 14);
    assert_eq!(board.clear_lines(), 1);
    let mut expected = vec![empty_row(); 20];
    expected[19] = row_with(&[(8, Color::Green), (9, Color::Green)]);
    expected[18][0] = Some(Color::Blue);
    expected[17][0] = Some(Color::Blue);
    expected[16][0] = Some(Color::Blue);
    expected[15][0] = Some(Color::Blue);
    assert_eq!(rows(&board), expected);
}

#[test]
fn clearing_one_row_in_the_middle() {
    let mut board = Board::new();
    fill_row(&mut board, 10, Color::Red, Color::Green);
    lock(&mut board, Color::Blue, 0, 2, 3);
    lock(&mut board, Color::Brown, 0, 1, 19);
    lock(&mut board, Color::Yellow, 0, 5, 11);
    let before = rows(&board);
    assert_eq!(board.clear_lines(), 1);
    let after = rows(&board);
    assert_eq!(after[0], empty_row());
    for y in 1..=10 {
        assert_eq!(after[y], before[y - 1], "row {}", y);
    }
    for y in 11..20 {
        assert_eq!(after[y], before[y], "row {}", y);
    }
    assert_eq!(after[10], row_with(&[(8, Color::Green), (9, Color::Green)]));
    assert_eq!(
        after[4],
        row_with(&[(2, Color::Blue), (3, Color::Blue), (4, Color::Blue), (5, Color::Blue)])
    );
}

#[test]
fn clearing_the_top_row() {
    let mut board = Board::new();
    lock(&mut board, Color::Red, 0, 0, 0);
    lock(&mut board, Color::Red, 0, 4, 0);
    lock(&mut board, Color::Green, 6, 8, 0);
    lock(&mut board, Color::Blue, 0, 0, 19);
    let before = rows(&board);
    assert_eq!(board.clear_lines(), 1);
    let after = rows(&board);
    assert_eq!(after[0], empty_row());
    for y in 1..20 {
        assert_eq!(after[y], before[y], "row {}", y);
    }
    assert_eq!(after[1], row_with(&[(8, Color::Green), (9, Color::Green)]));
}

#[test]
fn clearing_two_rows_with_a_row_between_them() {
    let mut board = Board::new();
    fill_row(&mut board, 19, Color::Red, Color::Green);
    fill_row(&mut board, 17, Color::Orange, Color::Blue);
    lock(&mut board, Color::Purple, 0, 0, 18);
    assert_eq!(board.clear_lines(), 2);
    let mut expected = vec![empty_row(); 20];
    expected[19] = row_with(&[
        (0, Color::Purple),
        (1, Color::Purple),
        (2, Color::Purple),
        (3, Color::Purple),
        (8, Color::Green),
        (9, Color::Green),
    ]);
    expected[18] = row_with(&[(8, Color::Blue), (9, Color::Blue)]);
    assert_eq!(rows(&board), expected);
}

#[test]
fn clearing_two_rows_in_the_middle_with_a_row_between_them() {
    let mut board = Board::new();
    fill_row(&mut board, 12, Color::Red, Color::Green);
    fill_row(&mut board, 10, Color::Orange, Color::Blue);
    lock(&mut board, Color::Brown, 0, 3, 15);
    lock(&mut board, Color::Yellow, 0, 1, 5);
    let before = rows(&board);
    assert_eq!(board.clear_lines(), 2);
    let after = rows(&board);
    assert_eq!(after[0], empty_row());
    assert_eq!(after[1], empty_row());
    for y in 2..12 {
        assert_eq!(after[y], before[y - 2], "row {}", y);
    }
    assert_eq!(after[12], before[11]);
    for y in 13..20 {
        assert_eq!(after[y], before[y], "row {}", y);
    }
    assert_eq!(after[12], row_with(&[(8, Color::Green), (9, Color::Green)]));
    assert_eq!(after[11], row_with(&[(8, Color::Blue), (9, Color::Blue)]));
}

#[test]
fn clearing_two_rows_next_to_each_other() {
    let mut board = Board::new();
    lock(&mut board, Color::Red, 0, 0, 18);
    lock(&mut board, Color::Red, 0, 4, 18);
    lock(&mut board, Color::Red, 0, 0, 19);
    lock(&mut board, Color::Red, 0, 4, 19);
    lock(&mut board, Color::Green, 6, 8, 18);
    lock(&mut board, Color::Blue, 0, 2, 17);
    assert_eq!(board.clear_lines(), 2);
    let mut expected = vec![empty_row(); 20];
    expected[19] =
        row_with(&[(2, Color::Blue), (3, Color::Blue), (4, Color::Blue), (5, Color::Blue)]);
    assert_eq!(rows(&board), expected);
}

#[test]
fn clearing_four_rows_at_once() {
    let mut board = Board::new();
    for y in 16..20 {
        lock(&mut board, Color::Red, 0, 0, y);
        lock(&mut board, Color::Red, 0, 4, y);
    }
    lock(&mut board, Color::Green, 6, 8, 16);
    lock(&mut board, Color::Green, 6, 8, 18);
    lock(&mut board, Color::Blue, 7, 0, 14);
    assert_eq!(board.clear_lines(), 4);
    let mut expected = vec![empty_row(); 20];
    expected[19] = row_with(&[(0, Color::Blue), (1, Color::Blue), (2, Color::Blue)]);
    expected[18] = row_with(&[(1, Color::Blue)]);
    assert_eq!(rows(&board), expected);
}

#[test]
fn clearing_a_board_of_full_rows_leaves_it_empty() {
    let mut board = Board::new();
    for y in 0..20 {
        lock(&mut board, Color::Red, 0, 0, y);
        lock(&mut board, Color::Red, 0, 4, y);
    }
    for y in 0..10 {
        lock(&mut board, Color::Green, 6, 8, 2 * y);
    }
    assert_eq!(board.clear_lines(), 20);
    assert_eq!(rows(&board), vec![empty_row(); 20]);
}

#[test]
fn clearing_twice_clears_nothing_the_second_time() {
    let mut board = Board::new();
    fill_row(&mut board, 19, Color::Red, Color::Green);
    fill_row(&mut board, 17, Color::Orange, Color::Blue);
    assert_eq!(board.clear_lines(), 2);
    let once = rows(&board);
    assert_eq!(board.clear_lines(), 0);
    assert_eq!(rows(&board), once);
}
