use tetris::assets::cell_char;
use tetris::assets::Cell;
use tetris::assets::FIELD_HEIGHT;
use tetris::assets::FIELD_WIDTH;
use tetris::colors::color_num;
use tetris::colors::curs_color;
use tetris::colors::get_piece_color_id;
use tetris::colors::is_bold;
use tetris::field::build_field;
use tetris::field::collapse_line;
use tetris::field::collapse_lines;
use tetris::field::detect_and_clear_lines;
use tetris::field::lock_piece;
use tetris::input::decode_key;
use tetris::input::Command;
use tetris::tetromino::does_piece_fit;
use tetris::tetromino::rotate;
use tetris::tetromino::tetromino_occupied;

fn idx(x: i32, y: i32) -> usize {
    (y * FIELD_WIDTH + x) as usize
}

#[test]
fn rotate_formula_values() {
    // r = 0: 4y + x
    assert_eq!(rotate(1, 2, 0), 9);
    // r = 1: 12 + y - 4x
    assert_eq!(rotate(1, 2, 1), 10);
    // r = 2: 15 - 4y - x
    assert_eq!(rotate(1, 2, 2), 6);
    // r = 3: 3 - y + 4x
    assert_eq!(rotate(1, 2, 3), 5);
    // the rotation index is read modulo 4
    assert_eq!(rotate(3, 1, 4), rotate(3, 1, 0));
    assert_eq!(rotate(3, 1, 7), rotate(3, 1, 3));
}

#[test]
fn rotate_is_bijective_for_each_rotation() {
    for r in 0..4 {
        let mut seen = [false; 16];
        for x in 0..4 {
            for y in 0..4 {
                let i = rotate(x, y, r);
                assert!(i < 16);
                assert!(!seen[i], "index {} hit twice under rotation {}", i, r);
                seen[i] = true;
            }
        }
        assert!(seen.iter().all(|&s| s));
    }
}

#[test]
fn every_piece_fits_at_spawn_on_empty_field() {
    let field = build_field();
    for id in 0..7 {
        assert!(does_piece_fit(&field, id, 0, FIELD_WIDTH / 2, 0));
    }
}

#[test]
fn overlap_with_locked_cell_fails_fit() {
    let mut field = build_field();
    // piece 0 at (6, 0) occupies column 8, rows 0 to 3
    field[idx(8, 1)] = Cell::Piece(3);
    assert!(!does_piece_fit(&field, 0, 0, 6, 0));
    // the same piece one column to the left misses the obstacle
    assert!(does_piece_fit(&field, 0, 0, 5, 0));
}

#[test]
fn out_of_bounds_template_cells_are_ignored() {
    let field = build_field();
    // piece 0 under one quarter turn occupies template row 2, all columns
    // at row p_y + 2: at p_y = 15 that is the bottom border row
    assert!(!does_piece_fit(&field, 0, 1, 4, 15));
    // at p_y = 16 the occupied cells project below the field and are ignored
    assert!(does_piece_fit(&field, 0, 1, 4, 16));
}

#[test]
fn border_cells_fail_fit() {
    let field = build_field();
    // piece 0 at (-2, 0) would put its occupied column on the left border
    assert!(!does_piece_fit(&field, 0, 0, -2, 0));
    // piece 0 at (9, 0) would put its occupied column on the right border
    assert!(!does_piece_fit(&field, 0, 0, 9, 0));
    // one cell in from either border is fine
    assert!(does_piece_fit(&field, 0, 0, -1, 0));
    assert!(does_piece_fit(&field, 0, 0, 8, 0));
}

#[test]
fn built_field_has_borders_and_blank_interior() {
    let field = build_field();
    assert_eq!(field.len(), 216);
    for y in 0..FIELD_HEIGHT {
        assert_eq!(field[idx(0, y)], Cell::Border);
        assert_eq!(field[idx(FIELD_WIDTH - 1, y)], Cell::Border);
    }
    for x in 0..FIELD_WIDTH {
        assert_eq!(field[idx(x, FIELD_HEIGHT - 1)], Cell::Border);
    }
    for y in 0..FIELD_HEIGHT - 1 {
        for x in 1..FIELD_WIDTH - 1 {
            assert_eq!(field[idx(x, y)], Cell::Empty);
        }
    }
}

#[test]
fn lock_writes_identity_markers() {
    let mut field = build_field();
    // piece 4 occupies template cells 2, 5, 6 and 10:
    // local (2,0), (1,1), (2,1), (2,2)
    lock_piece(&mut field, 4, 0, 5, 5);
    assert_eq!(field[idx(7, 5)], Cell::Piece(4));
    assert_eq!(field[idx(6, 6)], Cell::Piece(4));
    assert_eq!(field[idx(7, 6)], Cell::Piece(4));
    assert_eq!(field[idx(7, 7)], Cell::Piece(4));
    // a neighbour cell keeps its value
    assert_eq!(field[idx(6, 5)], Cell::Empty);
    assert_eq!(field[idx(8, 7)], Cell::Empty);
}

#[test]
fn detect_marks_exactly_the_complete_row() {
    let mut field = build_field();
    for x in 1..FIELD_WIDTH - 1 {
        field[idx(x, 10)] = Cell::Piece(1);
    }
    // row 9 is complete except one cell
    for x in 1..FIELD_WIDTH - 2 {
        field[idx(x, 9)] = Cell::Piece(1);
    }
    let lines = detect_and_clear_lines(&mut field, 8);
    assert_eq!(lines, vec![10]);
    for x in 1..FIELD_WIDTH - 1 {
        assert_eq!(field[idx(x, 10)], Cell::Cleared);
    }
    // the incomplete row keeps its cells
    assert_eq!(field[idx(1, 9)], Cell::Piece(1));
    assert_eq!(field[idx(10, 9)], Cell::Empty);
}

#[test]
fn detect_ignores_rows_outside_the_window() {
    let mut field = build_field();
    for x in 1..FIELD_WIDTH - 1 {
        field[idx(x, 10)] = Cell::Piece(2);
    }
    // the window [12, 16) misses row 10
    let lines = detect_and_clear_lines(&mut field, 12);
    assert!(lines.is_empty());
    assert_eq!(field[idx(1, 10)], Cell::Piece(2));
}

#[test]
fn collapse_shifts_rows_down_and_blanks_the_top() {
    let mut field = build_field();
    field[idx(3, 15)] = Cell::Piece(1);
    field[idx(5, 14)] = Cell::Piece(2);
    for x in 1..FIELD_WIDTH - 1 {
        field[idx(x, 16)] = Cell::Cleared;
    }
    collapse_line(&mut field, 16);
    // every cell that stood in row v-1 now stands in row v, up the field
    assert_eq!(field[idx(3, 16)], Cell::Piece(1));
    assert_eq!(field[idx(5, 15)], Cell::Piece(2));
    assert_eq!(field[idx(3, 15)], Cell::Empty);
    assert_eq!(field[idx(5, 14)], Cell::Empty);
    // the top row becomes blank, the borders stay
    for x in 1..FIELD_WIDTH - 1 {
        assert_eq!(field[idx(x, 0)], Cell::Empty);
    }
    for y in 0..FIELD_HEIGHT {
        assert_eq!(field[idx(0, y)], Cell::Border);
        assert_eq!(field[idx(FIELD_WIDTH - 1, y)], Cell::Border);
    }
    for x in 0..FIELD_WIDTH {
        assert_eq!(field[idx(x, FIELD_HEIGHT - 1)], Cell::Border);
    }
}

#[test]
fn collapse_processes_rows_first_to_last() {
    let mut field = build_field();
    field[idx(2, 12)] = Cell::Piece(5);
    for x in 1..FIELD_WIDTH - 1 {
        field[idx(x, 13)] = Cell::Cleared;
        field[idx(x, 14)] = Cell::Cleared;
    }
    let lines = vec![13, 14];
    collapse_lines(&mut field, &lines);
    // both cleared rows are gone and the marker dropped two rows
    assert_eq!(field[idx(2, 14)], Cell::Piece(5));
    assert_eq!(field[idx(2, 12)], Cell::Empty);
    assert_eq!(field[idx(2, 13)], Cell::Empty);
    for x in 1..FIELD_WIDTH - 1 {
        assert_ne!(field[idx(x, 13)], Cell::Cleared);
        assert_ne!(field[idx(x, 14)], Cell::Cleared);
    }
}

#[test]
fn template_occupancy_matches_the_catalog() {
    // piece 0 is the vertical bar in template column 2
    for j in 0..4usize {
        assert!(tetromino_occupied(0, 4 * j + 2));
        assert!(!tetromino_occupied(0, 4 * j));
    }
    // pieces 1 and 2 share one shape
    for i in 0..16usize {
        assert_eq!(tetromino_occupied(1, i), tetromino_occupied(2, i));
    }
    // every template holds exactly four occupied cells
    for p in 0..7 {
        let count = (0..16usize).filter(|&i| tetromino_occupied(p, i)).count();
        assert_eq!(count, 4);
    }
}

#[test]
fn decode_key_maps_the_command_surface() {
    assert_eq!(decode_key(27), Command::Quit);
    assert_eq!(decode_key(260), Command::MoveLeft);
    assert_eq!(decode_key(261), Command::MoveRight);
    assert_eq!(decode_key(258), Command::SoftDrop);
    assert_eq!(decode_key(32), Command::Rotate);
    assert_eq!(decode_key(259), Command::Rotate);
    assert_eq!(decode_key(-1), Command::Idle);
    assert_eq!(decode_key(65), Command::Idle);
}

#[test]
fn color_helpers_compute_the_documented_values() {
    assert_eq!(color_num(3, 5), 128 | (5 << 4) | 3);
    assert_eq!(color_num(0, 0), 128);
    // the low three bits are an RGB triple
    assert_eq!(curs_color(0), 0);
    assert_eq!(curs_color(1), 4);
    assert_eq!(curs_color(2), 2);
    assert_eq!(curs_color(3), 6);
    assert_eq!(curs_color(4), 1);
    assert_eq!(curs_color(5), 5);
    assert_eq!(curs_color(6), 3);
    assert_eq!(curs_color(7), 7);
    assert_eq!(curs_color(12), 1);
    assert!(is_bold(8));
    assert!(is_bold(15));
    assert!(!is_bold(7));
}

#[test]
fn cells_map_to_characters_and_colors() {
    assert_eq!(cell_char(Cell::Empty), ' ');
    assert_eq!(cell_char(Cell::Border), '#');
    assert_eq!(cell_char(Cell::Cleared), '=');
    assert_eq!(cell_char(Cell::Piece(0)), 'A');
    assert_eq!(cell_char(Cell::Piece(6)), 'G');
    assert_eq!(get_piece_color_id(Cell::Piece(0)), 1);
    assert_eq!(get_piece_color_id(Cell::Piece(4)), 5);
    assert_eq!(get_piece_color_id(Cell::Border), 0);
    assert_eq!(get_piece_color_id(Cell::Empty), 0);
}
