//! Fixed-point three-component vectors and exact squared distances.

use vstd::prelude::*;
use crate::POS_LIMIT;

verus! {

/// A position, offset or direction in milli-units per component.
#[derive(Clone, Copy, Debug, PartialEq, Eq, Structural)]
pub struct Vec3 {
    pub x: i64,
    pub y: i64,
    pub z: i64,
}

impl Vec3 {
    /// Every component lies in `[-bound, bound]`.
    pub open spec fn within(self, bound: int) -> bool {
        &&& -bound <= self.x <= bound
        &&& -bound <= self.y <= bound
        &&& -bound <= self.z <= bound
    }

    pub fn new(x: i64, y: i64, z: i64) -> (v: Vec3)
        ensures
            v == (Vec3 { x, y, z }),
    {
        Vec3 { x, y, z }
    }

    /// Checks the anchor range used by entity constructors.
    pub fn in_range(&self) -> (r: bool)
        ensures
            r == self.within(POS_LIMIT as int),
    {
        -POS_LIMIT <= self.x && self.x <= POS_LIMIT
            && -POS_LIMIT <= self.y && self.y <= POS_LIMIT
            && -POS_LIMIT <= self.z && self.z <= POS_LIMIT
    }
}

/// Squared Euclidean distance between two points, as an unbounded integer.
pub open spec fn dist_sq(a: Vec3, b: Vec3) -> int {
    (a.x - b.x) * (a.x - b.x) + (a.y - b.y) * (a.y - b.y) + (a.z - b.z) * (a.z - b.z)
}

/// Squared length of a direction vector.
pub open spec fn norm_sq(v: Vec3) -> int {
    v.x * v.x + v.y * v.y + v.z * v.z
}

/// Componentwise sum; callers keep operands small enough that it is exact.
pub fn vec_add(a: Vec3, b: Vec3) -> (r: Vec3)
    requires
        a.within(2 * POS_LIMIT),
        b.within(2 * POS_LIMIT),
    ensures
        r.x == a.x + b.x,
        r.y == a.y + b.y,
        r.z == a.z + b.z,
{
    Vec3 { x: a.x + b.x, y: a.y + b.y, z: a.z + b.z }
}

/// Componentwise difference; callers keep operands small enough that it is
/// exact.
pub fn vec_sub(a: Vec3, b: Vec3) -> (r: Vec3)
    requires
        a.within(2 * POS_LIMIT),
        b.within(2 * POS_LIMIT),
    ensures
        r.x == a.x - b.x,
        r.y == a.y - b.y,
        r.z == a.z - b.z,
{
    Vec3 { x: a.x - b.x, y: a.y - b.y, z: a.z - b.z }
}

/// A square of a coordinate difference stays well inside the 128-bit range:
/// differences of in-range coordinates are at most 2^62 in magnitude, so
/// their squares are at most 2^124.
pub proof fn lemma_sq_bound(a: int)
    by (nonlinear_arith)
    requires
        -0x4000_0000_0000_0000 <= a <= 0x4000_0000_0000_0000,
    ensures
        0 <= a * a <= 0x1000_0000_0000_0000_0000_0000_0000_0000,
{
}

/// Exact squared distance between two in-range points.
pub fn dist_sq_ex(a: Vec3, b: Vec3) -> (r: i128)
    requires
        a.within(2 * POS_LIMIT),
        b.within(2 * POS_LIMIT),
    ensures
        r == dist_sq(a, b),
{
    let dx: i128 = (a.x as i128) - (b.x as i128);
    let dy: i128 = (a.y as i128) - (b.y as i128);
    let dz: i128 = (a.z as i128) - (b.z as i128);
    proof {
        lemma_sq_bound(dx as int);
        lemma_sq_bound(dy as int);
        lemma_sq_bound(dz as int);
    }
    dx * dx + dy * dy + dz * dz
}

/// Exact squared length of a direction vector whose components may be as
/// large as twice the sum of two anchor ranges.
pub fn norm_sq_ex(v: Vec3) -> (r: i128)
    requires
        v.within(4 * POS_LIMIT),
    ensures
        r == norm_sq(v),
        r >= 0,
{
    let x: i128 = v.x as i128;
    let y: i128 = v.y as i128;
    let z: i128 = v.z as i128;
    proof {
        lemma_sq_bound(x as int);
        lemma_sq_bound(y as int);
        lemma_sq_bound(z as int);
    }
    x * x + y * y + z * z
}

} // verus!
