use raytris::game::Game;
use raytris::line_clear_message::{MessageType, SpinType};
use raytris::playfield::UpdateInfo;
use raytris::tetromino::Tetromino;

fn clear(lines: u32) -> UpdateInfo {
    UpdateInfo { cleared_lines: lines, spin: None, is_all_clear: false }
}

#[test]
fn single_with_no_streaks_scores_150() {
    let mut g = Game::new();
    g.update_score(clear(1));
    // Base 100 at factor 2 halves gives 100, plus the 50 combo bonus.
    assert_eq!(g.score(), 150);
    assert_eq!(g.combo(), 1);
    assert_eq!(g.b2b(), 0);
    assert_eq!(g.message().message, Some(MessageType::Single));
}

#[test]
fn tetris_on_a_long_streak_scores_1250() {
    let mut g = Game::new();
    g.b2b = 2;
    g.update_score(clear(4));
    // Base 800 at factor 3 halves gives 1200, plus the 50 combo bonus.
    assert_eq!(g.score(), 1250);
    assert_eq!(g.b2b(), 3);
    assert_eq!(g.combo(), 1);
    assert_eq!(g.message().message, Some(MessageType::Tetris));
}

#[test]
fn double_and_triple_use_the_base_table() {
    let mut g = Game::new();
    g.update_score(clear(2));
    assert_eq!(g.score(), 300 + 50);
    assert_eq!(g.message().message, Some(MessageType::Double));
    let mut g = Game::new();
    g.update_score(clear(3));
    assert_eq!(g.score(), 500 + 50);
    assert_eq!(g.message().message, Some(MessageType::Triple));
}

#[test]
fn all_clear_adds_its_own_bonus() {
    let mut g = Game::new();
    g.update_score(UpdateInfo { cleared_lines: 1, spin: None, is_all_clear: true });
    // 50 combo + 100 base + 3500 all-clear bonus, all at factor 2 halves.
    assert_eq!(g.score(), 50 + 100 + 3500);
    assert_eq!(g.message().message, Some(MessageType::AllClear));
}

#[test]
fn a_spin_without_lines_scores_its_base_and_keeps_the_combo_reset() {
    let mut g = Game::new();
    g.combo = 3;
    g.b2b = 1;
    let info = UpdateInfo {
        cleared_lines: 0,
        spin: Some((Tetromino::T, SpinType::Proper)),
        is_all_clear: false,
    };
    g.update_score(info);
    // No lines: the combo ends, the streak is left alone, base 400 at
    // factor 2 halves.
    assert_eq!(g.combo(), 0);
    assert_eq!(g.b2b(), 1);
    assert_eq!(g.score(), 400);
    assert_eq!(g.message().message, None);
    assert_eq!(g.message().spin, Some((Tetromino::T, SpinType::Proper)));
}

#[test]
fn spin_clears_extend_the_streak_and_scale_with_it() {
    let mut g = Game::new();
    g.b2b = 1;
    let info = UpdateInfo {
        cleared_lines: 1,
        spin: Some((Tetromino::T, SpinType::Mini)),
        is_all_clear: false,
    };
    g.update_score(info);
    // The spin clear raises the streak to 2, so factor 3 applies:
    // 200 * 3 / 2 = 300, plus the 50 combo bonus.
    assert_eq!(g.b2b(), 2);
    assert_eq!(g.score(), 350);
}

#[test]
fn a_plain_clear_breaks_the_streak() {
    let mut g = Game::new();
    g.b2b = 5;
    g.update_score(clear(2));
    assert_eq!(g.b2b(), 0);
}

#[test]
fn no_clear_ends_the_combo_without_scoring() {
    let mut g = Game::new();
    g.combo = 4;
    g.update_score(clear(0));
    assert_eq!(g.combo(), 0);
    assert_eq!(g.score(), 0);
}

#[test]
fn combo_bonus_grows_with_the_run() {
    let mut g = Game::new();
    g.update_score(clear(1));
    g.update_score(clear(1));
    g.update_score(clear(1));
    // 150 for the first single, then 100 base + 100 combo, then
    // 100 base + 150 combo.
    assert_eq!(g.score(), 150 + 200 + 250);
    assert_eq!(g.combo(), 3);
}
