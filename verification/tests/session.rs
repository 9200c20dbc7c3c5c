use tetris::assets::Cell;
use tetris::assets::FIELD_WIDTH;
use tetris::input::Command;
use tetris::session::Session;

fn idx(x: i32, y: i32) -> usize {
    (y * FIELD_WIDTH + x) as usize
}

#[test]
fn new_session_starts_at_the_spawn_position() {
    let s = Session::new();
    assert_eq!(s.field.len(), 216);
    assert_eq!(s.piece_id, 0);
    assert_eq!(s.rotation_id, 0);
    assert_eq!(s.x, FIELD_WIDTH / 2);
    assert_eq!(s.y, 0);
    assert_eq!(s.speed, 50);
    assert_eq!(s.speed_count, 0);
    assert_eq!(s.piece_count, 0);
    assert_eq!(s.score, 0);
    assert!(s.v_lines.is_empty());
    assert!(!s.game_over);
    assert!(s.rotate_hold);
}

#[test]
fn moves_are_gated_by_the_walls() {
    let mut s = Session::new();
    // piece 0 occupies column x + 2; the interior columns are 1 to 10
    for _ in 0..20 {
        s.update_input(Command::MoveLeft);
    }
    assert_eq!(s.x, -1);
    for _ in 0..20 {
        s.update_input(Command::MoveRight);
    }
    assert_eq!(s.x, 8);
}

#[test]
fn soft_drop_stops_on_the_bottom_border() {
    let mut s = Session::new();
    // piece 0 occupies rows y to y + 3; the bottom border is row 17
    for _ in 0..30 {
        s.update_input(Command::SoftDrop);
    }
    assert_eq!(s.y, 13);
}

#[test]
fn rotate_fires_once_per_discrete_press() {
    let mut s = Session::new();
    s.update_input(Command::Rotate);
    assert_eq!(s.rotation_id, 1);
    assert!(!s.rotate_hold);
    // held rotate does not fire again
    s.update_input(Command::Rotate);
    assert_eq!(s.rotation_id, 1);
    // an idle tick re-arms the debounce
    s.update_input(Command::Idle);
    assert!(s.rotate_hold);
    s.update_input(Command::Rotate);
    assert_eq!(s.rotation_id, 2);
}

#[test]
fn quit_ends_the_session() {
    let mut s = Session::new();
    s.update_input(Command::Quit);
    assert!(s.game_over);
}

#[test]
fn gravity_forces_a_descent_when_the_counter_reaches_the_speed() {
    let mut s = Session::new();
    s.speed = 10;
    for _ in 0..9 {
        s.tick(Command::Idle);
    }
    assert_eq!(s.y, 0);
    assert_eq!(s.speed_count, 9);
    s.tick(Command::Idle);
    assert_eq!(s.y, 1);
    assert_eq!(s.speed_count, 0);
}

#[test]
fn forced_lock_spawns_a_catalog_piece() {
    let mut s = Session::new();
    s.speed = 10;
    s.speed_count = 9;
    s.y = 13;
    // the piece cannot descend past the bottom border, so this tick locks it
    s.tick(Command::Idle);
    assert_eq!(s.piece_count, 1);
    assert_eq!(s.score, 25);
    assert_eq!(s.y, 0);
    assert_eq!(s.rotation_id, 0);
    assert_eq!(s.x, FIELD_WIDTH / 2);
    assert!(s.piece_id >= 0 && s.piece_id < 7);
    assert!(!s.game_over);
    assert_eq!(s.field[idx(8, 16)], Cell::Piece(0));
}

#[test]
fn single_line_clear_scores_225() {
    let mut s = Session::new();
    for x in 1..FIELD_WIDTH - 1 {
        if x != 8 {
            s.field[idx(x, 16)] = Cell::Piece(1);
        }
    }
    // piece 0 at column 6 fills cells (8, 13) to (8, 16), completing row 16
    s.y = 13;
    s.lock_and_spawn(3);
    assert_eq!(s.score, 225);
    assert_eq!(s.v_lines, vec![16]);
    for x in 1..FIELD_WIDTH - 1 {
        assert_eq!(s.field[idx(x, 16)], Cell::Cleared);
    }
    // the row above is not marked
    assert_eq!(s.field[idx(8, 15)], Cell::Piece(0));
    assert!(!s.game_over);
    assert_eq!(s.piece_id, 3);

    s.collapse_completed();
    assert!(s.v_lines.is_empty());
    // the locked cell of row 15 dropped into row 16
    assert_eq!(s.field[idx(8, 16)], Cell::Piece(0));
    assert_eq!(s.field[idx(1, 16)], Cell::Empty);
}

#[test]
fn four_line_clear_scores_1625() {
    let mut s = Session::new();
    for y in 13..17 {
        for x in 1..FIELD_WIDTH - 1 {
            if x != 8 {
                s.field[idx(x, y)] = Cell::Piece(2);
            }
        }
    }
    s.y = 13;
    s.lock_and_spawn(1);
    assert_eq!(s.score, 1625);
    assert_eq!(s.v_lines, vec![13, 14, 15, 16]);
    s.collapse_completed();
    for y in 13..17 {
        for x in 1..FIELD_WIDTH - 1 {
            assert_eq!(s.field[idx(x, y)], Cell::Empty);
        }
    }
}

#[test]
fn game_over_triggers_exactly_when_the_spawned_piece_does_not_fit() {
    // locking the fresh piece at the top leaves its cells under the spawn
    // footprint, so the next piece with the same shape cannot fit
    let mut s = Session::new();
    s.lock_and_spawn(0);
    assert!(s.game_over);

    // locked cells away from the spawn footprint leave the spawn free
    let mut t = Session::new();
    t.y = 10;
    t.lock_and_spawn(0);
    assert!(!t.game_over);
}

#[test]
fn fall_speed_never_drops_below_10() {
    let mut s = Session::new();
    for _ in 0..2500 {
        s.game_over = false;
        s.lock_and_spawn(0);
        assert!(s.speed >= 10);
        assert!(s.v_lines.is_empty());
    }
    // 2500 pieces passed 50 ramp steps, far beyond the floor
    assert_eq!(s.speed, 10);
    assert_eq!(s.piece_count, 2500);
}

#[test]
fn difficulty_ramps_every_50_pieces() {
    let mut s = Session::new();
    s.y = 10;
    for _ in 0..49 {
        s.game_over = false;
        s.lock_and_spawn(0);
        assert_eq!(s.speed, 50);
    }
    s.game_over = false;
    s.lock_and_spawn(0);
    assert_eq!(s.speed, 49);
}

#[test]
fn soft_drop_and_gravity_combine_in_one_tick() {
    let mut s = Session::new();
    s.speed = 10;
    s.speed_count = 9;
    s.tick(Command::SoftDrop);
    // the drop moved the piece one row, the forced descent one more
    assert_eq!(s.y, 2);
}

#[test]
fn quit_skips_the_forced_descent() {
    let mut s = Session::new();
    s.speed = 10;
    s.speed_count = 9;
    s.tick(Command::Quit);
    assert!(s.game_over);
    assert_eq!(s.y, 0);
}
