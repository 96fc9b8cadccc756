//! The cooldown and expiry timers on concrete tick sequences.

use tower_sim::timer::{Timer, TimerMode};
use tower_sim::ConfigError;

/// A repeating timer over durations summing to exactly k periods, with
/// every crossing exact, fires its edge exactly k times and never more
/// than once per tick.
#[test]
fn repeating_edge_fires_once_per_period() {
    let mut t = Timer::new(1000, TimerMode::Repeating).unwrap();
    let mut edges = 0;
    for &elapsed in [500u64, 500, 1000, 250, 250, 500].iter() {
        t.tick(elapsed);
        if t.just_finished() {
            edges += 1;
        }
    }
    // 3000 ms = 3 periods, all crossings exact
    assert_eq!(edges, 3);
}

/// An overshot crossing discards the excess: the accumulator resets to
/// zero, so completions are never closer together than the period.
#[test]
fn repeating_overshoot_discards_excess() {
    let mut t = Timer::new(1000, TimerMode::Repeating).unwrap();
    t.tick(2500);
    assert!(t.just_finished(), "one edge, not two");
    assert_eq!(t.acc, 0, "the excess 1500 ms is discarded");
    t.tick(500);
    assert!(!t.just_finished());
    t.tick(500);
    assert!(t.just_finished());
}

/// The edge signal is true only on the completing tick, then false again.
#[test]
fn edge_is_one_tick_wide() {
    let mut t = Timer::new(1000, TimerMode::Repeating).unwrap();
    t.tick(1000);
    assert!(t.just_finished());
    t.tick(10);
    assert!(!t.just_finished());
}

/// A one-shot timer completes once, stays completed, and never re-fires.
#[test]
fn one_shot_stays_completed() {
    let mut t = Timer::new(1000, TimerMode::Once).unwrap();
    t.tick(999);
    assert!(!t.just_finished());
    assert!(!t.finished);
    t.tick(1);
    assert!(t.just_finished(), "completes exactly at the period");
    assert!(t.finished);
    t.tick(5000);
    assert!(!t.just_finished(), "no second edge");
    assert!(t.finished);
}

/// A non-positive period is a configuration error, rejected at
/// construction.
#[test]
fn zero_period_rejected() {
    assert_eq!(
        Timer::new(0, TimerMode::Repeating),
        Err(ConfigError::BadPeriod)
    );
    assert_eq!(Timer::new(0, TimerMode::Once), Err(ConfigError::BadPeriod));
}
