use raytris::falling_piece::FallingPiece;
use raytris::game::Game;
use raytris::handling::HandlingSettings;
use raytris::input::InputState;
use raytris::line_clear_message::MESSAGE_DURATION_MS;
use raytris::tetromino::Tetromino;

#[test]
fn default_handling_values() {
    let h = HandlingSettings::default();
    assert_eq!(h.gravity, 330);
    assert_eq!(h.soft_drop, 160);
    assert_eq!(h.das, 140);
    assert_eq!(h.lock_delay, 500);
    assert_eq!(h.lock_delay_resets, 15);
}

#[test]
fn a_hard_drop_locks_and_starts_the_message_timer() {
    let mut g = Game::new();
    let h = HandlingSettings::default();
    let mut input = InputState::none();
    input.hard_drop = true;
    assert!(g.update(0, &input, &h));
    assert_eq!(g.message().remaining_time, MESSAGE_DURATION_MS);
    assert!(g.playfield.grid[39].iter().any(|c| c.is_some()));
}

#[test]
fn the_message_timer_runs_down_and_stops_at_zero() {
    let mut g = Game::new();
    let h = HandlingSettings::default();
    let mut drop = InputState::none();
    drop.hard_drop = true;
    g.update(0, &drop, &h);
    let idle = InputState::none();
    g.update(1500, &idle, &h);
    assert_eq!(g.message().remaining_time, MESSAGE_DURATION_MS - 1500);
    g.update(5000, &idle, &h);
    assert_eq!(g.message().remaining_time, 0);
}

#[test]
fn soft_drop_repeats_at_its_own_interval() {
    let mut g = Game::new();
    let h = HandlingSettings::default();
    let mut input = InputState::none();
    input.soft_drop = true;
    let y0 = g.playfield.falling_piece.y;
    g.update(h.soft_drop, &input, &h);
    assert_eq!(g.playfield.falling_piece.y, y0 + 1);
}

#[test]
fn a_lost_match_is_frozen_until_reset() {
    let mut g = Game::new();
    g.playfield.falling_piece = FallingPiece::new(Tetromino::O, 4, 10);
    g.playfield.solidify_piece();
    assert!(g.has_lost());
    let h = HandlingSettings::default();
    let mut input = InputState::none();
    input.hard_drop = true;
    let score_before = g.score();
    let grid_before = g.playfield.grid.clone();
    for _ in 0..5 {
        assert!(!g.update(100, &input, &h));
    }
    assert_eq!(g.score(), score_before);
    assert_eq!(g.playfield.grid, grid_before);
    assert!(g.has_lost());
}

#[test]
fn reset_can_keep_or_drop_the_score() {
    let mut g = Game::new();
    g.score = 1234;
    g.combo = 3;
    g.b2b = 2;
    g.reset(true);
    assert_eq!(g.score(), 1234);
    assert_eq!(g.combo(), 0);
    assert_eq!(g.b2b(), 0);
    g.score = 777;
    g.reset(false);
    assert_eq!(g.score(), 0);
    assert!(!g.has_lost());
}

#[test]
fn shift_taps_move_one_cell_and_prefer_left() {
    let mut g = Game::new();
    let h = HandlingSettings::default();
    let x0 = g.playfield.falling_piece.x;
    let mut input = InputState::none();
    input.left = true;
    g.update(0, &input, &h);
    assert_eq!(g.playfield.falling_piece.x, x0 - 1);
    let mut both = InputState::none();
    both.left = true;
    both.right = true;
    g.update(0, &both, &h);
    assert_eq!(g.playfield.falling_piece.x, x0 - 2);
    let mut right = InputState::none();
    right.right = true;
    g.update(0, &right, &h);
    assert_eq!(g.playfield.falling_piece.x, x0 - 1);
}

#[test]
fn a_full_bottom_row_scores_through_the_match_loop() {
    let mut g = Game::new();
    for x in 0..6 {
        g.playfield.grid[39][x] = Some(Tetromino::O);
    }
    g.playfield.falling_piece = FallingPiece::new(Tetromino::I, 7, 39);
    let h = HandlingSettings::default();
    let mut input = InputState::none();
    input.hard_drop = true;
    assert!(g.update(0, &input, &h));
    // One line, left the board empty: 50 combo + 100 base + 3500 bonus.
    assert_eq!(g.score(), 3650);
}
