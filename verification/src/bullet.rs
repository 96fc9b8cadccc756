//! Projectiles: straight-line movers with a direction fixed at spawn, a
//! constant speed, and a one-shot expiry timer.

use vstd::prelude::*;
use crate::vec3::{Vec3, dist_sq, dist_sq_ex};
use crate::math::{motion_step, spec_step, spec_travel, travel};
use crate::timer::{Timer, TimerMode, spec_tick};
use crate::{ConfigError, ELAPSED_MAX, PERIOD_MAX, POS_LIMIT, SPEED_LIMIT};

verus! {

/// Distance below which a projectile and a hostile are in contact, in
/// milli-units (a fifth of a world unit).
pub const CONTACT_RADIUS: i64 = 200;

/// Speed given to every projectile at spawn, in milli-units per second
/// (two world units per second).
pub const BULLET_SPEED: i64 = 2000;

/// Lifetime given to every projectile at spawn, in milliseconds: an order
/// of magnitude beyond a tower's fire period, so projectiles normally die
/// from contact, not timeout.
pub const BULLET_LIFETIME: u64 = 10_000;

/// Flight data of a projectile. The direction is computed once at spawn
/// and never changes; it is scaled to unit length at motion time, not at
/// spawn time, so a zero direction stays distinguishable.
#[derive(Clone, Copy, Debug, PartialEq, Eq, Structural)]
pub struct Bullet {
    pub direction: Vec3,
    pub speed: i64,
}

/// The one-shot countdown after which a projectile expires.
#[derive(Clone, Copy, Debug, PartialEq, Eq, Structural)]
pub struct Lifetime {
    pub timer: Timer,
}

/// One projectile in the arena: flight data, expiry countdown, world
/// position, and its deferred-destruction mark.
#[derive(Clone, Copy, Debug, PartialEq, Eq, Structural)]
pub struct Projectile {
    pub bullet: Bullet,
    pub lifetime: Lifetime,
    pub pos: Vec3,
    pub alive: bool,
}

impl Projectile {
    /// Speed positive and in range, spawn point within twice the anchor
    /// range (a muzzle offset can carry it beyond the anchor range), the
    /// direction within the span of two such points, and a well-formed
    /// countdown.
    pub open spec fn wf(self) -> bool {
        &&& 0 < self.bullet.speed <= SPEED_LIMIT
        &&& self.pos.within(2 * POS_LIMIT)
        &&& self.bullet.direction.within(4 * POS_LIMIT)
        &&& self.lifetime.timer.wf()
    }

    /// What a spawn request yields: rejected, in this order, for a
    /// non-positive or out-of-range speed, a non-positive or out-of-range
    /// lifetime, and an out-of-range spawn point or direction; any other
    /// spawn succeeds alive with a fresh one-shot countdown.
    pub open spec fn spec_new_result(pos: Vec3, direction: Vec3, speed: i64, lifetime: u64) -> Result<
        Projectile,
        ConfigError,
    > {
        if !(0 < speed <= SPEED_LIMIT) {
            Result::Err(ConfigError::BadSpeed)
        } else if !(0 < lifetime <= PERIOD_MAX) {
            Result::Err(ConfigError::BadPeriod)
        } else if !(pos.within(2 * POS_LIMIT) && direction.within(4 * POS_LIMIT)) {
            Result::Err(ConfigError::OutOfRange)
        } else {
            Result::Ok(
                Projectile {
                    bullet: Bullet { direction, speed },
                    lifetime: Lifetime {
                        timer: Timer {
                            mode: TimerMode::Once,
                            period: lifetime,
                            acc: 0,
                            finished: false,
                            just: false,
                        },
                    },
                    pos,
                    alive: true,
                },
            )
        }
    }

    /// Validates a spawn request exactly as `spec_new_result` says.
    pub fn new(pos: Vec3, direction: Vec3, speed: i64, lifetime: u64) -> (r: Result<
        Projectile,
        ConfigError,
    >)
        ensures
            r == Self::spec_new_result(pos, direction, speed, lifetime),
            r is Ok ==> r->Ok_0.wf(),
    {
        if speed <= 0 || speed > SPEED_LIMIT {
            Err(ConfigError::BadSpeed)
        } else if lifetime == 0 || lifetime > PERIOD_MAX {
            Err(ConfigError::BadPeriod)
        } else if !(-2 * POS_LIMIT <= pos.x && pos.x <= 2 * POS_LIMIT && -2 * POS_LIMIT <= pos.y
            && pos.y <= 2 * POS_LIMIT && -2 * POS_LIMIT <= pos.z && pos.z <= 2 * POS_LIMIT
            && -4 * POS_LIMIT <= direction.x && direction.x <= 4 * POS_LIMIT && -4 * POS_LIMIT
            <= direction.y && direction.y <= 4 * POS_LIMIT && -4 * POS_LIMIT <= direction.z
            && direction.z <= 4 * POS_LIMIT) {
            Err(ConfigError::OutOfRange)
        } else {
            Ok(
                Projectile {
                    bullet: Bullet { direction, speed },
                    lifetime: Lifetime {
                        timer: Timer {
                            mode: TimerMode::Once,
                            period: lifetime,
                            acc: 0,
                            finished: false,
                            just: false,
                        },
                    },
                    pos,
                    alive: true,
                },
            )
        }
    }

    /// Advances the projectile along its fixed direction by one tick's
    /// displacement; the direction itself never changes.
    pub fn advance(&mut self, elapsed: u64)
        requires
            old(self).wf(),
            elapsed <= ELAPSED_MAX,
        ensures
            *final(self) == spec_move_projectile(*old(self), elapsed),
            final(self).wf(),
    {
        let step: u64 = motion_step(self.bullet.speed, elapsed);
        self.pos = travel(self.pos, self.bullet.direction, step);
    }

    /// Counts one tick against the expiry countdown and marks the
    /// projectile destroyed on the countdown's completion edge.
    pub fn expire(&mut self, elapsed: u64)
        requires
            old(self).wf(),
            elapsed <= ELAPSED_MAX,
        ensures
            *final(self) == spec_expire_projectile(*old(self), elapsed),
            final(self).wf(),
    {
        self.lifetime.timer.tick(elapsed);
        if self.lifetime.timer.just_finished() {
            self.alive = false;
        }
    }
}

/// Where a projectile stands after one tick: its position moves by its
/// speed times the elapsed time along its direction scaled to unit
/// length; everything else — the direction above all — is unchanged.
pub open spec fn spec_move_projectile(p: Projectile, elapsed: u64) -> Projectile {
    Projectile {
        pos: spec_travel(p.pos, p.bullet.direction, spec_step(p.bullet.speed as int, elapsed as int)),
        ..p
    }
}

/// A projectile after one tick of its expiry countdown: destroyed exactly
/// on the countdown's one-shot completion edge, whatever else happens in
/// the tick.
pub open spec fn spec_expire_projectile(p: Projectile, elapsed: u64) -> Projectile {
    let t2 = spec_tick(p.lifetime.timer, elapsed);
    Projectile { lifetime: Lifetime { timer: t2 }, alive: p.alive && !t2.just, ..p }
}

/// Contact: the distance between the two points is below the contact
/// radius (compared through exact squares).
pub open spec fn in_contact(a: Vec3, b: Vec3) -> bool {
    dist_sq(a, b) < CONTACT_RADIUS as int * CONTACT_RADIUS as int
}

/// Decides contact exactly.
pub fn in_contact_ex(a: Vec3, b: Vec3) -> (r: bool)
    requires
        a.within(2 * POS_LIMIT),
        b.within(2 * POS_LIMIT),
    ensures
        r == in_contact(a, b),
{
    let d: i128 = dist_sq_ex(a, b);
    proof {
        assert(CONTACT_RADIUS as int * CONTACT_RADIUS as int == 40_000int) by (nonlinear_arith);
    }
    d < 40_000i128
}

} // verus!
