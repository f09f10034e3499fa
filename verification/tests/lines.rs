use tetris_core::board::{Board, BoardPosition, BOARD_WIDTH};
use tetris_core::lines::{
    clear_full_lines, completed_below, detect_complete_lines, full_lines, is_completed,
    settle_cell,
};
use tetris_core::score::LinesCompletedEvent;

fn full_row(y: i32) -> Vec<BoardPosition> {
    (1..=BOARD_WIDTH).map(|x| BoardPosition::new(x, y)).collect()
}

#[test]
fn full_lines_are_listed_from_the_bottom() {
    let mut cells = full_row(5);
    cells.extend(full_row(3));
    cells.push(BoardPosition::new(4, 7));
    cells.extend(full_row(25));
    let board = Board::from_cells(&cells);
    assert_eq!(full_lines(&board), vec![3, 5, 25]);
    assert_eq!(full_lines(&Board::new()), Vec::<i32>::new());
}

#[test]
fn completed_rows_are_found_and_counted() {
    let lines = vec![3, 5, 9];
    assert!(is_completed(&lines, 3));
    assert!(is_completed(&lines, 9));
    assert!(!is_completed(&lines, 4));
    assert_eq!(completed_below(&lines, 3), 0);
    assert_eq!(completed_below(&lines, 4), 1);
    assert_eq!(completed_below(&lines, 5), 1);
    assert_eq!(completed_below(&lines, 7), 2);
    assert_eq!(completed_below(&lines, 28), 3);
    assert_eq!(completed_below(&Vec::new(), 28), 0);
}

#[test]
fn settle_cell_drops_by_the_rows_below() {
    let lines = vec![3, 5];
    assert_eq!(settle_cell(&lines, BoardPosition::new(4, 7)), Some(BoardPosition::new(4, 5)));
    assert_eq!(settle_cell(&lines, BoardPosition::new(4, 4)), Some(BoardPosition::new(4, 3)));
    assert_eq!(settle_cell(&lines, BoardPosition::new(4, 2)), Some(BoardPosition::new(4, 2)));
    assert_eq!(settle_cell(&lines, BoardPosition::new(4, 3)), None);
    assert_eq!(settle_cell(&lines, BoardPosition::new(9, 5)), None);
}

#[test]
fn cell_above_two_full_rows_drops_by_two() {
    let mut cells = full_row(3);
    cells.extend(full_row(5));
    cells.push(BoardPosition::new(4, 7));
    let (left, completed) = detect_complete_lines(&cells);
    assert_eq!(completed, LinesCompletedEvent(2));
    assert_eq!(left, vec![BoardPosition::new(4, 5)]);
}

#[test]
fn cells_between_and_below_full_rows() {
    let mut cells = vec![BoardPosition::new(2, 1), BoardPosition::new(9, 4)];
    cells.extend(full_row(3));
    cells.push(BoardPosition::new(1, 6));
    cells.extend(full_row(5));
    cells.push(BoardPosition::new(10, 25));
    let (left, completed) = detect_complete_lines(&cells);
    assert_eq!(completed.0, 2);
    assert_eq!(
        left,
        vec![
            BoardPosition::new(2, 1),
            BoardPosition::new(9, 3),
            BoardPosition::new(1, 4),
            BoardPosition::new(10, 23),
        ]
    );
}

#[test]
fn clearing_without_a_full_row_changes_nothing() {
    let mut cells: Vec<BoardPosition> = full_row(1).into_iter().filter(|c| c.x != 7).collect();
    cells.push(BoardPosition::new(3, 2));
    cells.push(BoardPosition::new(3, 26));
    let before = Board::from_cells(&cells);
    let (left, completed) = detect_complete_lines(&cells);
    assert_eq!(completed, LinesCompletedEvent(0));
    assert_eq!(left, cells);
    let after = Board::from_cells(&left);
    for y in 0..=30 {
        for x in -1..=12 {
            let p = BoardPosition::new(x, y);
            assert_eq!(before.is_concrete(p), after.is_concrete(p));
        }
    }
}

#[test]
fn clearing_an_empty_playfield() {
    let (left, completed) = detect_complete_lines(&Vec::new());
    assert_eq!(completed.0, 0);
    assert!(left.is_empty());
}

#[test]
fn four_rows_clear_at_once() {
    let mut cells = Vec::new();
    for y in 1..=4 {
        cells.extend(full_row(y));
    }
    cells.push(BoardPosition::new(5, 5));
    cells.push(BoardPosition::new(5, 6));
    let (left, completed) = detect_complete_lines(&cells);
    assert_eq!(completed.0, 4);
    assert_eq!(left, vec![BoardPosition::new(5, 1), BoardPosition::new(5, 2)]);
}

#[test]
fn cells_in_the_headroom_come_down_too() {
    let mut cells = full_row(24);
    cells.push(BoardPosition::new(1, 27));
    cells.push(BoardPosition::new(1, 25));
    let (left, completed) = detect_complete_lines(&cells);
    assert_eq!(completed.0, 1);
    assert_eq!(left, vec![BoardPosition::new(1, 26), BoardPosition::new(1, 24)]);
}

#[test]
fn a_row_doubly_covered_is_full_once() {
    let mut cells = full_row(2);
    cells.extend(full_row(2));
    cells.push(BoardPosition::new(8, 3));
    let (left, completed) = detect_complete_lines(&cells);
    assert_eq!(completed.0, 1);
    assert_eq!(left, vec![BoardPosition::new(8, 2)]);
}

#[test]
fn no_row_is_full_after_a_pass() {
    let mut cells = Vec::new();
    for y in [1, 2, 4, 7, 8, 25] {
        cells.extend(full_row(y));
    }
    for (x, y) in [(1, 3), (2, 3), (9, 5), (10, 6), (4, 9), (4, 24)] {
        cells.push(BoardPosition::new(x, y));
    }
    let (left, completed) = detect_complete_lines(&cells);
    assert_eq!(completed.0, 6);
    assert_eq!(
        left,
        vec![
            BoardPosition::new(1, 1),
            BoardPosition::new(2, 1),
            BoardPosition::new(9, 2),
            BoardPosition::new(10, 3),
            BoardPosition::new(4, 4),
            BoardPosition::new(4, 19),
        ]
    );
    assert!(full_lines(&Board::from_cells(&left)).is_empty());
    let (again, none) = detect_complete_lines(&left);
    assert_eq!(none.0, 0);
    assert_eq!(again, left);
}

fn occupied(board: &Board) -> Vec<(i32, i32)> {
    let mut cells = Vec::new();
    for y in 1..=25 {
        for x in 1..=BOARD_WIDTH {
            if board.is_concrete(BoardPosition::new(x, y)) {
                cells.push((x, y));
            }
        }
    }
    cells
}

#[test]
fn clearing_row_by_row_on_a_board() {
    let mut cells = full_row(3);
    cells.extend(full_row(5));
    cells.push(BoardPosition::new(4, 7));
    cells.push(BoardPosition::new(9, 4));
    cells.push(BoardPosition::new(2, 1));
    let mut board = Board::from_cells(&cells);
    let completed = clear_full_lines(&mut board);
    assert_eq!(completed, LinesCompletedEvent(2));
    assert_eq!(occupied(&board), vec![(2, 1), (9, 3), (4, 5)]);
    assert_eq!(clear_full_lines(&mut board).0, 0);
    assert_eq!(occupied(&board), vec![(2, 1), (9, 3), (4, 5)]);
}

#[test]
fn one_pass_leaves_what_row_by_row_leaves() {
    let mut seed: u32 = 12345;
    for _ in 0..200 {
        let mut cells = Vec::new();
        for y in 1..=25 {
            seed = seed.wrapping_mul(1664525).wrapping_add(1013904223);
            let full = (seed >> 16) % 3 == 0;
            for x in 1..=BOARD_WIDTH {
                seed = seed.wrapping_mul(1664525).wrapping_add(1013904223);
                if full || (seed >> 16) % 2 == 0 {
                    cells.push(BoardPosition::new(x, y));
                }
            }
        }
        let mut board = Board::from_cells(&cells);
        let by_rows = clear_full_lines(&mut board);
        let (left, at_once) = detect_complete_lines(&cells);
        assert_eq!(by_rows, at_once);
        assert_eq!(occupied(&board), occupied(&Board::from_cells(&left)));
        assert!(full_lines(&board).is_empty());
    }
}

#[test]
fn clearing_a_full_board_row_by_row() {
    let mut cells = Vec::new();
    for y in 1..=25 {
        cells.extend(full_row(y));
    }
    let mut board = Board::from_cells(&cells);
    assert_eq!(clear_full_lines(&mut board).0, 25);
    assert!(occupied(&board).is_empty());
}
