use tetris_core::board::{Board, BoardPosition, BOARD_HEIGHT, BOARD_WIDTH};

fn row(y: i32) -> Vec<BoardPosition> {
    (1..=BOARD_WIDTH).map(|x| BoardPosition::new(x, y)).collect()
}

#[test]
fn position_new_keeps_coordinates() {
    let p = BoardPosition::new(3, -7);
    assert_eq!(p.x, 3);
    assert_eq!(p.y, -7);
    assert_eq!(BoardPosition::from((3, -7)), p);
}

#[test]
fn position_index_is_row_major() {
    assert_eq!(BoardPosition::new(1, 1).into_idx(), 0);
    assert_eq!(BoardPosition::new(10, 1).into_idx(), 9);
    assert_eq!(BoardPosition::new(1, 2).into_idx(), 10);
    assert_eq!(BoardPosition::new(4, 7).into_idx(), 63);
    assert_eq!(BoardPosition::new(10, 25).into_idx(), 249);
}

#[test]
fn position_arithmetic() {
    assert_eq!(BoardPosition::new(5, 25) + (-1, 0), BoardPosition::new(4, 25));
    assert_eq!(BoardPosition::new(5, 25) - (0, 1), BoardPosition::new(5, 24));
    assert_eq!((2, -1) + BoardPosition::new(-1, 0), (1, -1));
    assert_eq!((2, -1) - BoardPosition::new(-1, 3), (3, -4));
}

#[test]
fn walls_and_floor_are_solid_on_an_empty_board() {
    let board = Board::new();
    for y in 0..=BOARD_HEIGHT + 5 {
        assert!(board.is_concrete(BoardPosition::new(0, y)));
        assert!(board.is_concrete(BoardPosition::new(BOARD_WIDTH + 1, y)));
    }
    for x in 0..=BOARD_WIDTH + 1 {
        assert!(board.is_concrete(BoardPosition::new(x, 0)));
    }
}

#[test]
fn walls_and_floor_are_solid_on_a_full_board() {
    let mut cells = Vec::new();
    for y in 1..=BOARD_HEIGHT {
        cells.extend(row(y));
    }
    let board = Board::from_cells(&cells);
    for y in 0..=BOARD_HEIGHT + 5 {
        assert!(board.is_concrete(BoardPosition::new(0, y)));
        assert!(board.is_concrete(BoardPosition::new(BOARD_WIDTH + 1, y)));
    }
    for x in 0..=BOARD_WIDTH + 1 {
        assert!(board.is_concrete(BoardPosition::new(x, 0)));
    }
    for y in 1..=BOARD_HEIGHT {
        for x in 1..=BOARD_WIDTH {
            assert!(board.is_concrete(BoardPosition::new(x, y)));
        }
    }
}

#[test]
fn headroom_is_free() {
    let mut cells = row(BOARD_HEIGHT);
    cells.push(BoardPosition::new(3, BOARD_HEIGHT + 1));
    let board = Board::from_cells(&cells);
    for x in 1..=BOARD_WIDTH {
        assert!(board.is_concrete(BoardPosition::new(x, BOARD_HEIGHT)));
        assert!(!board.is_concrete(BoardPosition::new(x, BOARD_HEIGHT + 1)));
        assert!(!board.is_concrete(BoardPosition::new(x, BOARD_HEIGHT + 40)));
    }
}

#[test]
fn places_beyond_the_walls_are_free() {
    let board = Board::from_cells(&row(4));
    assert!(!board.is_concrete(BoardPosition::new(-1, 4)));
    assert!(!board.is_concrete(BoardPosition::new(BOARD_WIDTH + 2, 4)));
    assert!(!board.is_concrete(BoardPosition::new(3, -1)));
    assert!(board.is_concrete(BoardPosition::new(-5, 0)));
    assert!(board.is_concrete(BoardPosition::new(0, -5)));
}

#[test]
fn empty_cells_are_free_and_set_cells_are_solid() {
    let mut board = Board::new();
    assert!(!board.is_concrete(BoardPosition::new(4, 7)));
    board.set_occupied(BoardPosition::new(4, 7));
    assert!(board.is_concrete(BoardPosition::new(4, 7)));
    assert!(!board.is_concrete(BoardPosition::new(5, 7)));
    assert!(!board.is_concrete(BoardPosition::new(4, 8)));
    assert!(!board.is_concrete(BoardPosition::new(7, 4)));
}

#[test]
fn from_cells_skips_cells_outside_the_playfield() {
    let cells = vec![
        BoardPosition::new(0, 3),
        BoardPosition::new(11, 3),
        BoardPosition::new(3, 0),
        BoardPosition::new(3, 26),
        BoardPosition::new(-4, -4),
        BoardPosition::new(2, 2),
    ];
    let board = Board::from_cells(&cells);
    let mut solid_inside = 0;
    for y in 1..=BOARD_HEIGHT {
        for x in 1..=BOARD_WIDTH {
            if board.is_concrete(BoardPosition::new(x, y)) {
                solid_inside += 1;
                assert_eq!((x, y), (2, 2));
            }
        }
    }
    assert_eq!(solid_inside, 1);
}

#[test]
fn full_row_of_ten_cells_is_full() {
    let board = Board::from_cells(&row(1));
    assert!(board.is_line_full(1));
    for y in 2..=BOARD_HEIGHT {
        assert!(!board.is_line_full(y));
    }
}

#[test]
fn row_with_one_gap_is_not_full() {
    for gap in 1..=BOARD_WIDTH {
        let cells: Vec<BoardPosition> = row(9).into_iter().filter(|c| c.x != gap).collect();
        let board = Board::from_cells(&cells);
        assert!(!board.is_line_full(9));
    }
    assert!(Board::from_cells(&row(BOARD_HEIGHT)).is_line_full(BOARD_HEIGHT));
}

#[test]
fn clear_row_and_shift_moves_the_rows_above_down() {
    let mut cells = row(3);
    cells.push(BoardPosition::new(2, 2));
    cells.push(BoardPosition::new(5, 4));
    cells.push(BoardPosition::new(6, 25));
    let mut board = Board::from_cells(&cells);
    board.clear_row_and_shift(3);
    for y in 1..=BOARD_HEIGHT {
        for x in 1..=BOARD_WIDTH {
            let expected = (x, y) == (2, 2) || (x, y) == (5, 3) || (x, y) == (6, 24);
            assert_eq!(board.is_concrete(BoardPosition::new(x, y)), expected);
        }
    }
}

#[test]
fn clear_top_row_empties_it() {
    let mut board = Board::from_cells(&row(BOARD_HEIGHT));
    board.clear_row_and_shift(BOARD_HEIGHT);
    for x in 1..=BOARD_WIDTH {
        assert!(!board.is_concrete(BoardPosition::new(x, BOARD_HEIGHT)));
    }
}

#[test]
fn text_of_an_empty_board() {
    let text = Board::new().to_text();
    let rows: Vec<&str> = text.split('\n').collect();
    assert_eq!(rows.len(), 25);
    assert_eq!(rows[24], "");
    for row in &rows[..24] {
        assert_eq!(*row, "..........");
    }
}

#[test]
fn text_shows_the_rows_below_the_top_row_from_the_highest_down() {
    let mut cells = row(1);
    cells.push(BoardPosition::new(3, 2));
    cells.push(BoardPosition::new(10, 24));
    cells.push(BoardPosition::new(1, 25));
    let text = Board::from_cells(&cells).to_text();
    assert_eq!(text.len(), 24 * 11);
    let rows: Vec<&str> = text.lines().collect();
    assert_eq!(rows.len(), 24);
    assert_eq!(rows[0], ".........*");
    assert_eq!(rows[22], "..*.......");
    assert_eq!(rows[23], "**********");
    for shown in &rows[1..22] {
        assert_eq!(*shown, "..........");
    }
}
