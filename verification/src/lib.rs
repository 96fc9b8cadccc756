//! Core of a small real-time tower-defense simulation: cooldown-gated
//! firing, nearest-hostile targeting, straight-line projectile motion with
//! lifetime expiry, contact damage with first-match resolution, death
//! cleanup, and a one-way select-to-build upgrade.
//!
//! All geometry and time are fixed-point integers: positions and speeds in
//! milli-units (1000 = one world unit), time in milliseconds. Distances are
//! compared through their squares, so nearest-target selection and contact
//! tests are exact.

use vstd::prelude::*;

pub mod vec3;
pub mod math;
pub mod timer;
pub mod target;
pub mod bullet;
pub mod tower;
pub mod world;

verus! {

/// Milli-units per world unit and milliseconds per second share one scale,
/// so a speed in milli-units per second times an elapsed time in
/// milliseconds, divided by this, is a displacement in milli-units.
pub const TIME_SCALE: u64 = 1000;

/// Largest coordinate magnitude an entity anchor may have (2^60).
pub const POS_LIMIT: i64 = 0x1000_0000_0000_0000;

/// Largest speed accepted at construction, in milli-units per second (2^20).
pub const SPEED_LIMIT: i64 = 0x10_0000;

/// Largest elapsed time a single tick accepts, in milliseconds (2^32).
pub const ELAPSED_MAX: u64 = 0x1_0000_0000;

/// Largest timer period accepted at construction, in milliseconds (2^60).
pub const PERIOD_MAX: u64 = 0x1000_0000_0000_0000;

/// Why a construction request was rejected: timers need a positive period,
/// movers a positive speed, hostiles positive health, and every anchor must
/// lie within the coordinate range the arithmetic supports.
#[derive(Clone, Copy, Debug, PartialEq, Eq, Structural)]
pub enum ConfigError {
    BadPeriod,
    BadSpeed,
    BadHealth,
    OutOfRange,
}

} // verus!
