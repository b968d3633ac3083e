use raytris::falling_piece::{FallingPiece, Orientation, RotationType};
use raytris::handling::HandlingSettings;
use raytris::input::InputState;
use raytris::line_clear_message::SpinType;
use raytris::playfield::{spawn_tetromino, valid_mino, valid_position, Playfield};
use raytris::tetromino::Tetromino;

fn fill_row(pf: &mut Playfield, y: usize, upto: usize, t: Tetromino) {
    for x in 0..upto {
        pf.grid[y][x] = Some(t);
    }
}

#[test]
fn valid_mino_checks_the_grid_bounds() {
    assert!(valid_mino(0, 0));
    assert!(valid_mino(9, 39));
    assert!(!valid_mino(-1, 0));
    assert!(!valid_mino(10, 0));
    assert!(!valid_mino(0, -1));
    assert!(!valid_mino(0, 40));
}

#[test]
fn valid_position_rejects_collisions_and_walls() {
    let mut pf = Playfield::new();
    let p = FallingPiece::new(Tetromino::T, 4, 30);
    assert!(valid_position(&pf.grid, &p));
    // A settled cell under one of the piece's cells blocks it.
    pf.grid[30][4] = Some(Tetromino::I);
    assert!(!valid_position(&pf.grid, &p));
    // Far left, the T piece's left arm would leave the grid.
    let at_wall = FallingPiece::new(Tetromino::T, 0, 30);
    assert!(!valid_position(&pf.grid, &at_wall));
}

#[test]
fn locking_clears_full_rows_and_settles_the_rest() {
    let mut pf = Playfield::new();
    // Floor rows full, the row above missing only its last cell, and a
    // marker higher up to watch the settling.
    fill_row(&mut pf, 38, 10, Tetromino::I);
    fill_row(&mut pf, 39, 10, Tetromino::I);
    fill_row(&mut pf, 37, 9, Tetromino::O);
    pf.grid[30][0] = Some(Tetromino::J);
    // A vertical I piece in the last column fills the gap in row 37.
    let mut piece = FallingPiece::new(Tetromino::I, 9, 35);
    piece.rotate(RotationType::Clockwise);
    pf.falling_piece = piece;
    let info = pf.solidify_piece();
    assert_eq!(info.cleared_lines, 3);
    assert!(!info.is_all_clear);
    // The marker moved down by exactly the three cleared rows.
    assert_eq!(pf.grid[33][0], Some(Tetromino::J));
    assert_eq!(pf.grid[30][0], None);
    // The piece's three cells above the cleared rows settled onto the floor.
    assert_eq!(pf.grid[37][9], Some(Tetromino::I));
    assert_eq!(pf.grid[38][9], Some(Tetromino::I));
    assert_eq!(pf.grid[39][9], Some(Tetromino::I));
    assert!(!pf.has_lost());
}

#[test]
fn clearing_the_last_cells_reports_all_clear() {
    let mut pf = Playfield::new();
    fill_row(&mut pf, 39, 6, Tetromino::O);
    // A flat I piece fills the remaining four cells of the floor row.
    pf.falling_piece = FallingPiece::new(Tetromino::I, 7, 39);
    let info = pf.solidify_piece();
    assert_eq!(info.cleared_lines, 1);
    assert!(info.is_all_clear);
    for y in 0..40 {
        for x in 0..10 {
            assert_eq!(pf.grid[y][x], None);
        }
    }
}

#[test]
fn top_out_fires_for_a_piece_buried_in_the_hidden_rows() {
    let mut pf = Playfield::new();
    // Lock a piece whose cells all lie above the visible area.
    pf.falling_piece = FallingPiece::new(Tetromino::O, 4, 10);
    let info = pf.solidify_piece();
    assert_eq!(info.cleared_lines, 0);
    assert!(pf.has_lost());
}

#[test]
fn top_out_fires_when_the_next_piece_cannot_spawn() {
    let mut pf = Playfield::new();
    // Block every cell any kind could spawn into.
    for x in 2..=7 {
        for y in 17..=19 {
            pf.grid[y][x] = Some(Tetromino::L);
        }
    }
    // Lock a piece at the floor, far below the visible boundary.
    pf.falling_piece = FallingPiece::new(Tetromino::O, 0, 39);
    let info = pf.solidify_piece();
    assert_eq!(info.cleared_lines, 0);
    assert!(pf.has_lost());
}

#[test]
fn t_spin_classification_needs_three_corners() {
    let mut pf = Playfield::new();
    let piece = FallingPiece::new(Tetromino::T, 4, 30);
    assert_eq!(Playfield::is_spin(&piece, &pf.grid), None);
    // Both front corners (above, nub side) and one back corner blocked.
    pf.grid[29][3] = Some(Tetromino::I);
    pf.grid[29][5] = Some(Tetromino::I);
    assert_eq!(Playfield::is_spin(&piece, &pf.grid), None);
    pf.grid[31][3] = Some(Tetromino::I);
    assert_eq!(Playfield::is_spin(&piece, &pf.grid), Some(SpinType::Proper));
}

#[test]
fn t_spin_with_one_front_corner_is_mini() {
    let mut pf = Playfield::new();
    let piece = FallingPiece::new(Tetromino::T, 4, 30);
    pf.grid[29][3] = Some(Tetromino::I);
    pf.grid[31][3] = Some(Tetromino::I);
    pf.grid[31][5] = Some(Tetromino::I);
    assert_eq!(Playfield::is_spin(&piece, &pf.grid), Some(SpinType::Mini));
}

#[test]
fn spins_are_only_awarded_to_the_t_piece() {
    let mut pf = Playfield::new();
    let piece = FallingPiece::new(Tetromino::S, 4, 30);
    pf.grid[29][3] = Some(Tetromino::I);
    pf.grid[29][5] = Some(Tetromino::I);
    pf.grid[31][3] = Some(Tetromino::I);
    pf.grid[31][5] = Some(Tetromino::I);
    assert_eq!(Playfield::is_spin(&piece, &pf.grid), None);
}

#[test]
fn das_one_tick_short_of_the_interval_does_not_slide() {
    let mut pf = Playfield::new();
    let h = HandlingSettings::default();
    let mut input = InputState::none();
    input.left_das = true;
    let x_before = pf.falling_piece.x;
    pf.update(&input, &h, h.das - 1);
    assert_eq!(pf.falling_piece.x, x_before);
}

#[test]
fn das_held_for_the_full_interval_slides_to_the_wall() {
    let mut pf = Playfield::new();
    let h = HandlingSettings::default();
    let mut input = InputState::none();
    input.left_das = true;
    pf.update(&input, &h, h.das);
    let min_cell_x = pf
        .falling_piece
        .map
        .iter()
        .map(|(cx, _)| *cx as i32 + pf.falling_piece.x as i32)
        .min()
        .unwrap();
    assert_eq!(min_cell_x, 0);
}

#[test]
fn das_slides_only_to_the_first_obstruction() {
    let mut pf = Playfield::new();
    // A wall of settled cells in column 1 at the spawn rows.
    for y in 15..=22 {
        pf.grid[y][1] = Some(Tetromino::J);
    }
    pf.falling_piece = FallingPiece::new(Tetromino::O, 5, 19);
    let h = HandlingSettings::default();
    let mut input = InputState::none();
    input.left_das = true;
    pf.update(&input, &h, h.das);
    // The O piece (cells at offsets 0 and 1) stops with its left cells in
    // column 2, against the wall in column 1.
    assert_eq!(pf.falling_piece.x, 2);
}

#[test]
fn rotation_against_the_wall_is_kicked_inward() {
    let mut pf = Playfield::new();
    let mut piece = FallingPiece::new(Tetromino::I, 0, 25);
    piece.rotate(RotationType::Clockwise);
    pf.falling_piece = piece;
    let h = HandlingSettings::default();
    let mut input = InputState::none();
    input.clockwise = true;
    pf.update(&input, &h, 0);
    assert_eq!(pf.falling_piece.orientation, Orientation::Down);
    assert_eq!(pf.falling_piece.x, 2);
    assert_eq!(pf.falling_piece.y, 27);
    assert!(pf.last_move_rotation);
}

#[test]
fn gravity_pulls_the_piece_one_row_per_interval() {
    let mut pf = Playfield::new();
    let h = HandlingSettings::default();
    let input = InputState::none();
    let y0 = pf.falling_piece.y;
    pf.update(&input, &h, h.gravity - 1);
    assert_eq!(pf.falling_piece.y, y0);
    pf.update(&input, &h, 1);
    assert_eq!(pf.falling_piece.y, y0 + 1);
}

#[test]
fn hard_drop_locks_at_the_floor() {
    let mut pf = Playfield::new();
    let h = HandlingSettings::default();
    let mut input = InputState::none();
    input.hard_drop = true;
    let result = pf.update(&input, &h, 0);
    let info = result.expect("a hard drop must lock");
    assert_eq!(info.cleared_lines, 0);
    assert!(pf.grid[39].iter().any(|c| c.is_some()));
    assert!(pf.can_swap);
}

#[test]
fn grounded_piece_locks_when_the_lock_delay_runs_out() {
    let mut pf = Playfield::new();
    pf.falling_piece = FallingPiece::new(Tetromino::I, 4, 39);
    let h = HandlingSettings::default();
    let input = InputState::none();
    let result = pf.update(&input, &h, h.lock_delay);
    assert!(result.is_some());
    for x in 3..=6 {
        assert_eq!(pf.grid[39][x], Some(Tetromino::I));
    }
}

#[test]
fn swapping_stores_the_piece_and_spawns_a_replacement() {
    let mut pf = Playfield::new();
    let first = pf.falling_piece.tetromino;
    let h = HandlingSettings::default();
    let mut input = InputState::none();
    input.swap = true;
    pf.update(&input, &h, 0);
    assert_eq!(pf.holding_piece, Some(first));
    assert!(!pf.can_swap);
    let second = pf.falling_piece.tetromino;
    assert_eq!(pf.falling_piece.y, 19);
    // A second swap in the same piece's lifetime is refused.
    pf.update(&input, &h, 0);
    assert_eq!(pf.holding_piece, Some(first));
    assert_eq!(pf.falling_piece.tetromino, second);
}

#[test]
fn ghost_piece_rests_on_the_floor_of_an_empty_board() {
    let pf = Playfield::new();
    let gp = pf.ghost_piece();
    let max_cell_y = gp.map.iter().map(|(_, cy)| *cy as i32 + gp.y as i32).max().unwrap();
    assert_eq!(max_cell_y, 39);
    assert_eq!(gp.x, pf.falling_piece.x);
}

#[test]
fn updates_after_a_loss_never_change_the_board() {
    let mut pf = Playfield::new();
    pf.falling_piece = FallingPiece::new(Tetromino::O, 4, 10);
    pf.solidify_piece();
    assert!(pf.has_lost());
    let grid_before = pf.grid.clone();
    let piece_before = pf.falling_piece;
    let h = HandlingSettings::default();
    let mut input = InputState::none();
    input.hard_drop = true;
    input.left_das = true;
    input.clockwise = true;
    input.swap = true;
    for _ in 0..10 {
        assert!(pf.update(&input, &h, 1000).is_none());
    }
    assert_eq!(pf.grid, grid_before);
    assert_eq!(pf.falling_piece, piece_before);
    assert!(pf.lost());
}

#[test]
fn cells_below_a_cleared_row_stay_put() {
    let mut pf = Playfield::new();
    fill_row(&mut pf, 36, 6, Tetromino::O);
    fill_row(&mut pf, 39, 3, Tetromino::J);
    pf.falling_piece = FallingPiece::new(Tetromino::I, 7, 36);
    let info = pf.solidify_piece();
    assert_eq!(info.cleared_lines, 1);
    for x in 0..3 {
        assert_eq!(pf.grid[39][x], Some(Tetromino::J));
    }
    for x in 0..10 {
        assert_eq!(pf.grid[36][x], None);
    }
}

#[test]
fn a_das_slide_counts_one_lock_delay_reset() {
    let mut pf = Playfield::new();
    let h = HandlingSettings::default();
    let mut input = InputState::none();
    input.left_das = true;
    pf.update(&input, &h, h.das);
    assert_eq!(pf.lock_delay_resets, 1);
}

#[test]
fn an_unobstructed_rotation_keeps_the_pivot() {
    let mut pf = Playfield::new();
    pf.falling_piece = FallingPiece::new(Tetromino::T, 4, 30);
    let h = HandlingSettings::default();
    let mut input = InputState::none();
    input.counter_clockwise = true;
    pf.update(&input, &h, 0);
    assert_eq!(pf.falling_piece.orientation, Orientation::Left);
    assert_eq!((pf.falling_piece.x, pf.falling_piece.y), (4, 30));
}

#[test]
fn spent_lock_delay_resets_force_a_lock() {
    let mut pf = Playfield::new();
    pf.falling_piece = FallingPiece::new(Tetromino::I, 4, 39);
    let h = HandlingSettings::default();
    let mut left = InputState::none();
    left.left = true;
    let mut right = InputState::none();
    right.right = true;
    // Wiggling on the floor resets the lock delay each time, but only
    // until the reset allowance is spent.
    let mut locked = false;
    for i in 0..2 * h.lock_delay_resets + 4 {
        let input = if i % 2 == 0 { &left } else { &right };
        if pf.update(input, &h, 0).is_some() {
            locked = true;
            break;
        }
    }
    assert!(locked);
}

#[test]
fn restart_gives_a_fresh_board() {
    let mut pf = Playfield::new();
    fill_row(&mut pf, 39, 10, Tetromino::I);
    pf.restart();
    for y in 0..40 {
        for x in 0..10 {
            assert_eq!(pf.grid[y][x], None);
        }
    }
    assert!(!pf.has_lost());
    assert_eq!(pf.falling_piece, spawn_tetromino(pf.falling_piece.tetromino));
}
