use game::pause::pause;
use game::states::{countdown, GameState};
use game::timer::{Timer, TimerMode};

#[test]
fn once_timer_fires_on_the_crossing_tick_only() {
    let mut t = Timer::from_millis(1_000, TimerMode::Once);
    t.tick(400);
    assert!(!t.finished() && !t.just_finished());
    t.tick(600);
    assert!(t.finished() && t.just_finished());
    t.tick(100);
    assert!(t.finished() && !t.just_finished());
    assert_eq!(t.elapsed_ms, 1_000);
}

#[test]
fn repeating_timer_wraps_and_fires_each_period() {
    let mut t = Timer::from_millis(200, TimerMode::Repeating);
    t.tick(150);
    assert!(!t.just_finished());
    t.tick(150);
    assert!(t.just_finished());
    assert_eq!(t.elapsed_ms, 100);
    t.tick(500);
    assert!(t.just_finished());
    assert_eq!(t.elapsed_ms, 0);
    t.tick(100);
    assert!(!t.just_finished());
}

#[test]
fn set_elapsed_and_reset() {
    let mut t = Timer::from_millis(1_500, TimerMode::Repeating);
    t.set_elapsed(1_000);
    t.tick(500);
    assert!(t.just_finished());
    t.reset();
    assert_eq!(t.elapsed_ms, 0);
    assert!(!t.just_finished());
}

#[test]
fn countdown_leaves_splash_when_its_timer_completes() {
    let mut t = Timer::from_millis(200, TimerMode::Once);
    assert_eq!(countdown(&mut t, 100), None);
    assert_eq!(countdown(&mut t, 100), Some(GameState::Game));
    assert_eq!(countdown(&mut t, 100), None);
}

#[test]
fn pause_toggles_between_game_and_pause() {
    assert_eq!(pause(GameState::Game), Some(GameState::Pause));
    assert_eq!(pause(GameState::Pause), Some(GameState::Game));
    assert_eq!(pause(GameState::Splash), None);
}
