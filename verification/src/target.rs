//! Hostile units: constant-speed movers along one axis, with integer
//! health, destroyed when their health reaches zero.

use vstd::prelude::*;
use crate::vec3::Vec3;
use crate::math::{motion_step, spec_step};
use crate::{ConfigError, ELAPSED_MAX, POS_LIMIT, SPEED_LIMIT};

verus! {

/// Behavioural data of a hostile: its constant speed in milli-units per
/// second.
#[derive(Clone, Copy, Debug, PartialEq, Eq, Structural)]
pub struct Target {
    pub speed: i64,
}

/// Hit points; a hostile is destroyed once they reach zero.
#[derive(Clone, Copy, Debug, PartialEq, Eq, Structural)]
pub struct Health {
    pub value: i32,
}

/// One hostile in the arena: behavioural data, its world position, and
/// its deferred-destruction mark (`alive` is cleared during a tick and the
/// record is removed when the tick's batch is flushed).
#[derive(Clone, Copy, Debug, PartialEq, Eq, Structural)]
pub struct Hostile {
    pub target: Target,
    pub health: Health,
    pub pos: Vec3,
    pub alive: bool,
}

impl Hostile {
    /// Speed positive and in range, anchor in range.
    pub open spec fn wf(self) -> bool {
        &&& 0 < self.target.speed <= SPEED_LIMIT
        &&& self.pos.within(POS_LIMIT as int)
    }

    /// What a spawn request yields: rejected, in this order, for a
    /// non-positive or out-of-range speed, a non-positive starting
    /// health, and an out-of-range position; any other spawn succeeds
    /// alive.
    pub open spec fn spec_new_result(pos: Vec3, speed: i64, health: i32) -> Result<
        Hostile,
        ConfigError,
    > {
        if !(0 < speed <= SPEED_LIMIT) {
            Result::Err(ConfigError::BadSpeed)
        } else if health <= 0 {
            Result::Err(ConfigError::BadHealth)
        } else if !pos.within(POS_LIMIT as int) {
            Result::Err(ConfigError::OutOfRange)
        } else {
            Result::Ok(
                Hostile { target: Target { speed }, health: Health { value: health }, pos, alive: true },
            )
        }
    }

    /// Validates a spawn request exactly as `spec_new_result` says.
    pub fn new(pos: Vec3, speed: i64, health: i32) -> (r: Result<Hostile, ConfigError>)
        ensures
            r == Self::spec_new_result(pos, speed, health),
            r is Ok ==> r->Ok_0.wf(),
    {
        if speed <= 0 || speed > SPEED_LIMIT {
            Err(ConfigError::BadSpeed)
        } else if health <= 0 {
            Err(ConfigError::BadHealth)
        } else if !pos.in_range() {
            Err(ConfigError::OutOfRange)
        } else {
            Ok(Hostile { target: Target { speed }, health: Health { value: health }, pos, alive: true })
        }
    }

    /// Advances the hostile by one tick's displacement.
    pub fn advance(&mut self, elapsed: u64)
        requires
            old(self).wf(),
            elapsed <= ELAPSED_MAX,
        ensures
            *final(self) == spec_advance_hostile(*old(self), elapsed),
            final(self).wf(),
    {
        let step: u64 = motion_step(self.target.speed, elapsed);
        let nx: i64 = self.pos.x + (step as i64);
        if -POS_LIMIT <= nx && nx <= POS_LIMIT {
            self.pos.x = nx;
        }
    }
}

/// Where a hostile stands after one tick: unconditional, monotonic
/// advance along the x axis by speed times elapsed time; a destination
/// outside the coordinate range yields no displacement.
pub open spec fn spec_advance_hostile(h: Hostile, elapsed: u64) -> Hostile {
    let nx = h.pos.x + spec_step(h.target.speed as int, elapsed as int);
    if -POS_LIMIT <= nx <= POS_LIMIT {
        Hostile { pos: Vec3 { x: nx as i64, y: h.pos.y, z: h.pos.z }, ..h }
    } else {
        h
    }
}

/// One contact's damage: the health drops by exactly one point (guarded
/// only at the representation's absolute minimum, which live hostiles
/// never reach).
pub open spec fn spec_hit(h: Hostile) -> Hostile {
    if h.health.value > i32::MIN {
        Hostile { health: Health { value: (h.health.value - 1) as i32 }, ..h }
    } else {
        h
    }
}

/// Death resolution for one hostile: marked destroyed exactly when its
/// health is no longer positive.
pub open spec fn spec_mark_death(h: Hostile) -> Hostile {
    if h.health.value <= 0 {
        Hostile { alive: false, ..h }
    } else {
        h
    }
}

} // verus!
