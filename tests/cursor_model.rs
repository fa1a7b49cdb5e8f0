use quote_typer::cursor::{position_for, Cursor, CursorBoundaryError};

fn at(col: u16, row: u16, num_cols: u16, num_rows: u16) -> Cursor {
    Cursor { col, row, num_cols, num_rows }
}

#[test]
fn column_is_count_mod_width() {
    for count in [0usize, 1, 7, 9, 10, 11, 99, 12345] {
        for width in [1u16, 3, 10, 80] {
            let c = position_for(count, width, 40);
            assert_eq!(c.col as usize, count % width as usize);
        }
    }
}

#[test]
fn wrapping_at_width_ten() {
    let c = position_for(10, 10, 24);
    assert_eq!((c.col, c.row), (0, 1));
    let c = position_for(19, 10, 24);
    assert_eq!((c.col, c.row), (9, 1));
    let c = position_for(20, 10, 24);
    assert_eq!((c.col, c.row), (0, 2));
}

#[test]
fn row_is_held_at_half_height() {
    let c = position_for(1000, 10, 10);
    assert_eq!((c.col, c.row), (0, 5));
    let c = position_for(57, 10, 11);
    assert_eq!((c.col, c.row), (7, 5));
    let c = position_for(47, 10, 11);
    assert_eq!((c.col, c.row), (7, 4));
}

#[test]
fn align_center_moves_cursor() {
    let mut c = Cursor::new(10, 24);
    c.align_center(25);
    assert_eq!(c, at(5, 2, 10, 24));
}

#[test]
fn step_forward_wraps_at_right_edge() {
    let mut c = at(4, 0, 5, 3);
    assert_eq!(c.cursor_forward_one('x'), Ok(()));
    assert_eq!(c, at(0, 1, 5, 3));
    assert_eq!(c.cursor_forward_one('x'), Ok(()));
    assert_eq!(c, at(1, 1, 5, 3));
}

#[test]
fn step_forward_over_line_break() {
    let mut c = at(2, 0, 5, 3);
    assert_eq!(c.cursor_forward_one('\n'), Ok(()));
    assert_eq!(c, at(0, 1, 5, 3));
}

#[test]
fn step_forward_stops_at_last_cell() {
    let mut c = at(4, 2, 5, 3);
    assert_eq!(c.cursor_forward_one('x'), Err(CursorBoundaryError));
    assert_eq!(c, at(4, 2, 5, 3));
    let mut c = at(1, 2, 5, 3);
    assert_eq!(c.cursor_forward_one('\n'), Err(CursorBoundaryError));
    assert_eq!(c, at(1, 2, 5, 3));
}

#[test]
fn step_back_wraps_to_previous_row() {
    let mut c = at(0, 1, 5, 3);
    assert_eq!(c.cursor_back_one('x'), Ok(()));
    assert_eq!(c, at(4, 0, 5, 3));
    assert_eq!(c.cursor_back_one('x'), Ok(()));
    assert_eq!(c, at(3, 0, 5, 3));
}

#[test]
fn step_back_over_line_break_moves_up() {
    let mut c = at(0, 2, 5, 3);
    assert_eq!(c.cursor_back_one('\n'), Ok(()));
    assert_eq!(c, at(0, 1, 5, 3));
    let mut c = at(0, 0, 5, 3);
    assert_eq!(c.cursor_back_one('\n'), Err(CursorBoundaryError));
    assert_eq!(c, at(0, 0, 5, 3));
}

#[test]
fn step_back_stops_at_origin() {
    let mut c = at(0, 0, 5, 3);
    assert_eq!(c.cursor_back_one('x'), Err(CursorBoundaryError));
    assert_eq!(c, at(0, 0, 5, 3));
}

#[test]
fn forward_then_back_round_trip() {
    let text: Vec<char> = "abcd\nefghij".chars().collect();
    let start = at(0, 0, 4, 6);
    let mut c = start;
    for &ch in &text {
        assert_eq!(c.cursor_forward_one(ch), Ok(()));
    }
    assert_ne!(c, start);
    for &ch in text.iter().rev() {
        assert_eq!(c.cursor_back_one(ch), Ok(()));
    }
    assert_eq!(c, start);
}

#[test]
fn forward_walk_stops_at_boundary() {
    let start = at(0, 0, 2, 2);
    let mut c = start;
    let mut moved = 0;
    for ch in "abcdef".chars() {
        if c.cursor_forward_one(ch).is_err() {
            break;
        }
        moved += 1;
    }
    assert_eq!(moved, 3);
    assert_eq!(c, at(1, 1, 2, 2));
}
