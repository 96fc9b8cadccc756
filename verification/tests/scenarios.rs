//! End-to-end scenarios over whole simulation ticks.

use tower_sim::bullet::{BULLET_LIFETIME, BULLET_SPEED};
use tower_sim::tower::{TOMATO_MUZZLE_RISE, TOMATO_PERIOD};
use tower_sim::vec3::Vec3;
use tower_sim::world::World;

fn v(x: i64, y: i64, z: i64) -> Vec3 {
    Vec3 { x, y, z }
}

/// Tower at the origin with muzzle offset (0, 0.2, 0.5) and fire period
/// 1.0 s; hostile at (5, 0, 1.5) moving at 0.3 units/s along x. After
/// 1.0 s of simulated time exactly one projectile exists, its direction
/// the difference of target and spawn positions at spawn time.
#[test]
fn first_shot_after_one_second() {
    let mut w = World::new();
    w.spawn_tower(v(0, 0, 0), 1000, v(0, 200, 500)).unwrap();
    w.spawn_target(v(5000, 0, 1500), 300, 3).unwrap();

    w.tick(1000);

    assert_eq!(w.bullets.len(), 1);
    // movement runs before firing: the hostile stands at x = 5300
    assert_eq!(w.hostiles[0].pos, v(5300, 0, 1500));
    assert_eq!(w.bullets[0].pos, v(0, 200, 500));
    assert_eq!(w.bullets[0].bullet.direction, v(5300, -200, 1000));
    assert_eq!(w.bullets[0].bullet.speed, BULLET_SPEED);
    assert_eq!(w.bullets[0].lifetime.timer.period, BULLET_LIFETIME);
}

/// Hostile with health 3 at a fixed position: each successful contact
/// destroys the projectile and costs one health point; after three
/// contacts the hostile is destroyed, before that it is alive with
/// health 3 minus the contacts so far.
#[test]
fn three_contacts_destroy_health_three() {
    let mut w = World::new();
    // speed 1 mu/s with 100 ms ticks displaces 0 mu: a fixed position
    w.spawn_target(v(0, 0, 0), 1, 3).unwrap();

    w.spawn_projectile(v(0, 0, 0), v(0, 0, 0), 2000, 10_000).unwrap();
    w.tick(100);
    assert_eq!(w.bullets.len(), 0, "the projectile dies on contact");
    assert_eq!(w.hostiles.len(), 1);
    assert_eq!(w.hostiles[0].health.value, 2);

    w.spawn_projectile(v(0, 0, 0), v(0, 0, 0), 2000, 10_000).unwrap();
    w.tick(100);
    assert_eq!(w.bullets.len(), 0);
    assert_eq!(w.hostiles.len(), 1);
    assert_eq!(w.hostiles[0].health.value, 1);

    w.spawn_projectile(v(0, 0, 0), v(0, 0, 0), 2000, 10_000).unwrap();
    w.tick(100);
    assert_eq!(w.bullets.len(), 0);
    assert_eq!(w.hostiles.len(), 0, "health reached zero: destroyed");
}

/// Expiry timer of 10.0 s with no hostile ever in range: the projectile
/// survives 9 s of ticks and is destroyed on the tick that completes
/// 10.0 s, never earlier.
#[test]
fn lonely_projectile_expires_at_ten_seconds() {
    let mut w = World::new();
    w.spawn_projectile(v(0, 0, 0), v(1000, 0, 0), 2000, 10_000).unwrap();

    for k in 1..=9i64 {
        w.tick(1000);
        assert_eq!(w.bullets.len(), 1, "still flying before expiry");
        // straight-line motion: 2 units per second along x
        assert_eq!(w.bullets[0].pos, v(2000 * k, 0, 0));
    }
    w.tick(1000);
    assert_eq!(w.bullets.len(), 0, "expired exactly at 10 s");
}

/// A projectile with a zero direction stays in place rather than
/// producing any numeric error.
#[test]
fn zero_direction_no_displacement() {
    let mut w = World::new();
    w.spawn_projectile(v(70, 80, 90), v(0, 0, 0), 2000, 10_000).unwrap();
    w.tick(1000);
    assert_eq!(w.bullets[0].pos, v(70, 80, 90));
}

/// Straight-line motion follows the integer formula exactly: a 3-4-5
/// direction of length 5000 scales a 2000 mu step into (1200, 0, 1600).
#[test]
fn motion_follows_direction_exactly() {
    let mut w = World::new();
    w.spawn_projectile(v(0, 0, 0), v(3000, 0, 4000), 2000, 10_000).unwrap();
    w.tick(1000);
    assert_eq!(w.bullets[0].pos, v(1200, 0, 1600));
    w.tick(1000);
    assert_eq!(w.bullets[0].pos, v(2400, 0, 3200));
    // the direction itself never changes
    assert_eq!(w.bullets[0].bullet.direction, v(3000, 0, 4000));
}

/// A projectile at exactly the contact radius is not a contact: the
/// threshold is strict.
#[test]
fn contact_radius_is_strict() {
    let mut w = World::new();
    w.spawn_target(v(200, 0, 0), 1, 3).unwrap();
    w.spawn_projectile(v(0, 0, 0), v(0, 0, 0), 2000, 10_000).unwrap();
    w.tick(100);
    assert_eq!(w.bullets.len(), 1, "distance 0.2 is not below the radius");
    assert_eq!(w.hostiles[0].health.value, 3);

    let mut w2 = World::new();
    w2.spawn_target(v(199, 0, 0), 1, 3).unwrap();
    w2.spawn_projectile(v(0, 0, 0), v(0, 0, 0), 2000, 10_000).unwrap();
    w2.tick(100);
    assert_eq!(w2.bullets.len(), 0, "distance 0.199 is a contact");
    assert_eq!(w2.hostiles[0].health.value, 2);
}

/// One projectile damages at most one hostile: with two overlapping
/// hostiles, only the first in iteration order is hit.
#[test]
fn first_match_wins_single_damage() {
    let mut w = World::new();
    w.spawn_target(v(0, 0, 0), 1, 3).unwrap();
    w.spawn_target(v(50, 0, 0), 1, 3).unwrap();
    w.spawn_projectile(v(10, 0, 0), v(0, 0, 0), 2000, 10_000).unwrap();
    w.tick(100);
    assert_eq!(w.hostiles[0].health.value, 2, "first hostile takes the hit");
    assert_eq!(w.hostiles[1].health.value, 3, "second hostile untouched");
    assert_eq!(w.bullets.len(), 0);
}

/// With no hostiles, a completed cooldown spawns nothing and still
/// resets, so the tower fires on the next completion once a hostile
/// exists.
#[test]
fn empty_world_skips_fire_and_resets_cooldown() {
    let mut w = World::new();
    w.spawn_tower(v(0, 0, 0), 1000, v(0, 200, 500)).unwrap();
    w.tick(1000);
    assert_eq!(w.bullets.len(), 0, "no target, no projectile");
    assert_eq!(w.towers[0].tower.shooting_timer.acc, 0, "cooldown reset anyway");

    w.spawn_target(v(3000, 0, 0), 300, 3).unwrap();
    w.tick(500);
    assert_eq!(w.bullets.len(), 0, "cooldown not yet complete");
    w.tick(500);
    assert_eq!(w.bullets.len(), 1, "fires on the next completion");
}

/// Hostiles advance along x by speed times elapsed time, unconditionally.
#[test]
fn hostiles_advance_along_x() {
    let mut w = World::new();
    w.spawn_target(v(-6000, 200, 1500), 300, 3).unwrap();
    w.tick(1000);
    assert_eq!(w.hostiles[0].pos, v(-5700, 200, 1500));
    w.tick(500);
    assert_eq!(w.hostiles[0].pos, v(-5550, 200, 1500));
}

/// The build transition consumes a selected site and creates one tower
/// with the build variant's own parameters; a second trigger in
/// immediate succession builds nothing more.
#[test]
fn build_once_not_twice() {
    let mut w = World::new();
    w.spawn_site(v(1000, 0, 2000)).unwrap();
    w.spawn_site(v(-1000, 0, 2000)).unwrap();
    assert!(w.set_site_selected(0, true));

    w.build_tower();
    assert_eq!(w.towers.len(), 1, "one tower from the selected site");
    assert_eq!(w.towers[0].pos, v(1000, 0, 2000));
    assert_eq!(w.towers[0].tower.shooting_timer.period, TOMATO_PERIOD);
    assert_eq!(
        w.towers[0].tower.bullet_offset,
        v(0, TOMATO_MUZZLE_RISE, 0)
    );
    assert!(!w.sites[0].alive, "the site is consumed");
    assert!(w.sites[1].alive, "the unselected site is untouched");

    w.build_tower();
    assert_eq!(w.towers.len(), 1, "a repeated trigger builds nothing");

    w.tick(1);
    assert_eq!(w.sites.len(), 1, "the consumed site left at the flush");
    assert_eq!(w.towers.len(), 1);
}

/// A selection beyond the sites is rejected and changes nothing.
#[test]
fn select_out_of_range_is_noop() {
    let mut w = World::new();
    w.spawn_site(v(0, 0, 0)).unwrap();
    assert!(!w.set_site_selected(5, true));
    assert!(!w.sites[0].selected);
}
