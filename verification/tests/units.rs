//! Targeting, integer geometry, and construction-time validation.

use tower_sim::bullet::Projectile;
use tower_sim::math::isqrt;
use tower_sim::target::Hostile;
use tower_sim::tower::{nearest_target, Site, TowerEnt};
use tower_sim::vec3::{dist_sq_ex, Vec3};
use tower_sim::world::World;
use tower_sim::{ConfigError, POS_LIMIT, SPEED_LIMIT};

fn v(x: i64, y: i64, z: i64) -> Vec3 {
    Vec3 { x, y, z }
}

fn hostile_at(x: i64, y: i64, z: i64) -> Hostile {
    Hostile::new(v(x, y, z), 300, 3).unwrap()
}

/// Targeting returns the hostile minimizing the distance to the firing
/// point.
#[test]
fn nearest_picks_minimal_distance() {
    let hs = vec![
        hostile_at(5000, 0, 0),
        hostile_at(100, 100, 100),
        hostile_at(-2000, 0, 0),
    ];
    assert_eq!(nearest_target(&hs, v(0, 0, 0)), Some(1));
    assert_eq!(nearest_target(&hs, v(-2100, 0, 0)), Some(2));
}

/// Equidistant hostiles: the selection is the first in input order, and
/// re-evaluating the same state yields the same choice.
#[test]
fn nearest_tie_breaks_by_input_order() {
    let hs = vec![hostile_at(1000, 0, 0), hostile_at(-1000, 0, 0)];
    assert_eq!(nearest_target(&hs, v(0, 0, 0)), Some(0));
    assert_eq!(nearest_target(&hs, v(0, 0, 0)), Some(0));
}

/// With no hostiles there is no target.
#[test]
fn nearest_of_empty_is_none() {
    let hs: Vec<Hostile> = Vec::new();
    assert_eq!(nearest_target(&hs, v(0, 0, 0)), None);
}

/// Destroyed records are not targets.
#[test]
fn nearest_skips_dead_hostiles() {
    let mut near = hostile_at(10, 0, 0);
    near.alive = false;
    let hs = vec![near, hostile_at(900, 0, 0)];
    assert_eq!(nearest_target(&hs, v(0, 0, 0)), Some(1));
}

/// Squared distances are exact integers.
#[test]
fn squared_distance_exact() {
    assert_eq!(dist_sq_ex(v(0, 0, 0), v(3, 4, 0)), 25);
    assert_eq!(dist_sq_ex(v(1, 2, 3), v(1, 2, 3)), 0);
    assert_eq!(dist_sq_ex(v(-100, 0, 0), v(100, 0, 0)), 40_000);
}

/// The integer square root rounds down.
#[test]
fn integer_square_root_rounds_down() {
    assert_eq!(isqrt(0), 0);
    assert_eq!(isqrt(1), 1);
    assert_eq!(isqrt(24), 4);
    assert_eq!(isqrt(25), 5);
    assert_eq!(isqrt(26), 5);
    assert_eq!(isqrt(50_000_000), 7071);
}

/// Hostile construction rejects bad speeds, non-positive health, and
/// out-of-range positions, in that order.
#[test]
fn hostile_construction_validation() {
    assert_eq!(
        Hostile::new(v(0, 0, 0), 0, 3),
        Err(ConfigError::BadSpeed)
    );
    assert_eq!(
        Hostile::new(v(0, 0, 0), -5, 3),
        Err(ConfigError::BadSpeed)
    );
    assert_eq!(
        Hostile::new(v(0, 0, 0), SPEED_LIMIT + 1, 3),
        Err(ConfigError::BadSpeed)
    );
    assert_eq!(
        Hostile::new(v(0, 0, 0), 300, 0),
        Err(ConfigError::BadHealth)
    );
    assert_eq!(
        Hostile::new(v(POS_LIMIT + 1, 0, 0), 300, 3),
        Err(ConfigError::OutOfRange)
    );
    let h = Hostile::new(v(1, 2, 3), 300, 3).unwrap();
    assert!(h.alive);
    assert_eq!(h.health.value, 3);
    assert_eq!(h.target.speed, 300);
}

/// Projectile construction rejects bad speeds, bad lifetimes, and
/// out-of-range geometry, in that order.
#[test]
fn projectile_construction_validation() {
    assert_eq!(
        Projectile::new(v(0, 0, 0), v(1, 0, 0), 0, 10_000),
        Err(ConfigError::BadSpeed)
    );
    assert_eq!(
        Projectile::new(v(0, 0, 0), v(1, 0, 0), 2000, 0),
        Err(ConfigError::BadPeriod)
    );
    assert_eq!(
        Projectile::new(v(3 * POS_LIMIT, 0, 0), v(1, 0, 0), 2000, 10_000),
        Err(ConfigError::OutOfRange)
    );
    let p = Projectile::new(v(0, 0, 0), v(1, 0, 0), 2000, 10_000).unwrap();
    assert!(p.alive);
    assert!(!p.lifetime.timer.finished);
}

/// Tower construction rejects a non-positive period and out-of-range
/// geometry, in that order.
#[test]
fn tower_construction_validation() {
    assert_eq!(
        TowerEnt::new(v(0, 0, 0), 0, v(0, 200, 500)),
        Err(ConfigError::BadPeriod)
    );
    assert_eq!(
        TowerEnt::new(v(0, POS_LIMIT + 1, 0), 1000, v(0, 200, 500)),
        Err(ConfigError::OutOfRange)
    );
    let t = TowerEnt::new(v(0, 0, 0), 1000, v(0, 200, 500)).unwrap();
    assert_eq!(t.tower.shooting_timer.period, 1000);
    assert_eq!(t.tower.bullet_offset, v(0, 200, 500));
}

/// Site construction rejects an out-of-range position.
#[test]
fn site_construction_validation() {
    assert_eq!(
        Site::new(v(0, 0, -POS_LIMIT - 1)),
        Err(ConfigError::OutOfRange)
    );
    let s = Site::new(v(5, 5, 5)).unwrap();
    assert!(s.alive);
    assert!(!s.selected);
}

/// A rejected spawn leaves the arena unchanged.
#[test]
fn rejected_spawn_changes_nothing() {
    let mut w = World::new();
    assert_eq!(
        w.spawn_target(v(0, 0, 0), 0, 3),
        Err(ConfigError::BadSpeed)
    );
    assert_eq!(w.hostiles.len(), 0);
    assert_eq!(
        w.spawn_tower(v(0, 0, 0), 0, v(0, 0, 0)),
        Err(ConfigError::BadPeriod)
    );
    assert_eq!(w.towers.len(), 0);
    assert_eq!(
        w.spawn_projectile(v(0, 0, 0), v(0, 0, 0), -1, 10_000),
        Err(ConfigError::BadSpeed)
    );
    assert_eq!(w.bullets.len(), 0);
    assert_eq!(
        w.spawn_site(v(POS_LIMIT + 1, 0, 0)),
        Err(ConfigError::OutOfRange)
    );
    assert_eq!(w.sites.len(), 0);
}
