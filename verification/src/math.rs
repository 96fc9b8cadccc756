//! Integer square roots and the fixed-point motion arithmetic shared by
//! hostiles and projectiles.

use vstd::prelude::*;
use vstd::arithmetic::div_mod::{
    lemma_div_is_ordered, lemma_div_by_multiple, lemma_div_nonincreasing, lemma_div_pos_is_pos,
};
use crate::vec3::{Vec3, norm_sq, norm_sq_ex, lemma_sq_bound};
use crate::{POS_LIMIT, SPEED_LIMIT, ELAPSED_MAX, TIME_SCALE};

verus! {

/// Largest displacement a single tick can produce, in milli-units:
/// the speed limit times the elapsed-time limit over the time scale is
/// below 2^52.
pub const STEP_MAX: u64 = 0x10_0000_0000_0000;

/// The floor of the square root of a non-negative integer.
pub open spec fn sqrt_floor(n: int) -> int {
    choose|r: int| 0 <= r && #[trigger] (r * r) <= n && n < (r + 1) * (r + 1)
}

/// Only one integer can be the floor square root of `n`.
pub proof fn lemma_sqrt_unique(n: int, a: int, b: int)
    by (nonlinear_arith)
    requires
        0 <= a,
        a * a <= n,
        n < (a + 1) * (a + 1),
        0 <= b,
        b * b <= n,
        n < (b + 1) * (b + 1),
    ensures
        a == b,
{
}

/// A witness with the floor-square-root property pins `sqrt_floor` down.
pub proof fn lemma_sqrt_floor_is(n: int, r: int)
    requires
        0 <= r,
        r * r <= n,
        n < (r + 1) * (r + 1),
    ensures
        sqrt_floor(n) == r,
{
    assert(exists|q: int| 0 <= q && #[trigger] (q * q) <= n && n < (q + 1) * (q + 1)) by {
        assert(0 <= r && r * r <= n && n < (r + 1) * (r + 1));
    }
    let q = sqrt_floor(n);
    lemma_sqrt_unique(n, q, r);
}

/// Products of non-negative values respect componentwise bounds.
pub proof fn lemma_mul_le(a: int, b: int, c: int, d: int)
    by (nonlinear_arith)
    requires
        0 <= a <= b,
        0 <= c <= d,
    ensures
        a * c <= b * d,
{
}

/// A value whose square is at most `n` is at most the floor square root
/// of `n` in magnitude.
pub proof fn lemma_comp_le_sqrt(c: int, n: int, len: int)
    by (nonlinear_arith)
    requires
        c * c <= n,
        0 <= len,
        n < (len + 1) * (len + 1),
    ensures
        -len <= c <= len,
{
}

/// Floor square root of an integer below 2^126, by bisection.
pub fn isqrt(n: u128) -> (r: u128)
    requires
        n < 0x4000_0000_0000_0000_0000_0000_0000_0000,
    ensures
        r * r <= n < (r + 1) * (r + 1),
        r <= 0x8000_0000_0000_0000,
        r == sqrt_floor(n as int),
{
    let mut lo: u128 = 0;
    let mut hi: u128 = 0x8000_0000_0000_0000;
    proof {
        assert((0x8000_0000_0000_0000int + 1) * (0x8000_0000_0000_0000int + 1)
            == 0x4000_0000_0000_0001_0000_0000_0000_0001int) by (nonlinear_arith);
    }
    while lo < hi
        invariant
            lo <= hi <= 0x8000_0000_0000_0000,
            lo * lo <= n,
            n < (hi + 1) * (hi + 1),
        decreases hi - lo,
    {
        let mid: u128 = lo + (hi - lo + 1) / 2;
        proof {
            assert(0x8000_0000_0000_0000int * 0x8000_0000_0000_0000int
                == 0x4000_0000_0000_0000_0000_0000_0000_0000int) by (nonlinear_arith);
            lemma_mul_le(mid as int, 0x8000_0000_0000_0000int, mid as int,
                0x8000_0000_0000_0000int);
        }
        if mid * mid <= n {
            lo = mid;
        } else {
            hi = mid - 1;
        }
    }
    proof {
        lemma_sqrt_floor_is(n as int, lo as int);
    }
    lo
}

/// Displacement magnitude for one tick: speed in milli-units per second
/// times elapsed milliseconds, over the time scale, rounded down.
pub open spec fn spec_step(speed: int, elapsed: int) -> int {
    speed * elapsed / (TIME_SCALE as int)
}

/// Computes the tick displacement magnitude exactly.
pub fn motion_step(speed: i64, elapsed: u64) -> (step: u64)
    requires
        0 < speed <= SPEED_LIMIT,
        elapsed <= ELAPSED_MAX,
    ensures
        step == spec_step(speed as int, elapsed as int),
        step <= STEP_MAX,
{
    proof {
        lemma_mul_le(speed as int, SPEED_LIMIT as int, elapsed as int, ELAPSED_MAX as int);
        assert(SPEED_LIMIT as int * ELAPSED_MAX as int == STEP_MAX as int) by (nonlinear_arith);
        lemma_div_nonincreasing(speed as int * elapsed as int, TIME_SCALE as int);
        lemma_div_pos_is_pos(speed as int * elapsed as int, TIME_SCALE as int);
    }
    let prod: u128 = (speed as u128) * (elapsed as u128);
    let step128: u128 = prod / (TIME_SCALE as u128);
    step128 as u64
}

/// One component of a straight-line displacement: the component's share of
/// the step, scaled by the direction's length, rounded toward zero.
pub open spec fn disp_comp(c: int, step: int, len: int) -> int {
    if c >= 0 {
        c * step / len
    } else {
        -((-c) * step / len)
    }
}

/// Computes one displacement component exactly; its magnitude never
/// exceeds the step.
fn disp_ex(c: i64, step: u64, len: u128) -> (d: i128)
    requires
        0 < len <= 0x8000_0000_0000_0000,
        -(len as int) <= c as int <= len as int,
        step <= STEP_MAX,
    ensures
        d == disp_comp(c as int, step as int, len as int),
        -(step as int) <= d <= step as int,
{
    let mag_in: u128 = if c < 0 {
        (-(c as i128)) as u128
    } else {
        c as u128
    };
    proof {
        lemma_mul_le(mag_in as int, len as int, step as int, step as int);
        lemma_mul_le(len as int, 0x8000_0000_0000_0000int, step as int, STEP_MAX as int);
        assert(0x8000_0000_0000_0000int * 0x10_0000_0000_0000int
            == 0x8_0000_0000_0000_0000_0000_0000_0000int) by (nonlinear_arith);
        lemma_div_is_ordered(mag_in as int * step as int, len as int * step as int, len as int);
        lemma_div_by_multiple(step as int, len as int);
        lemma_div_pos_is_pos(mag_in as int * step as int, len as int);
        assert(len as int * step as int == step as int * len as int) by (nonlinear_arith);
    }
    let mag: u128 = mag_in * (step as u128) / len;
    if c < 0 {
        -(mag as i128)
    } else {
        mag as i128
    }
}

/// Straight-line travel for one tick. The direction is scaled to unit
/// length through its integer floor length; a zero-length direction or a
/// destination outside the coordinate range yields no displacement.
pub open spec fn spec_travel(pos: Vec3, dir: Vec3, step: int) -> Vec3 {
    let ns = norm_sq(dir);
    let len = sqrt_floor(ns);
    if len == 0 {
        pos
    } else {
        let nx = pos.x + disp_comp(dir.x as int, step, len);
        let ny = pos.y + disp_comp(dir.y as int, step, len);
        let nz = pos.z + disp_comp(dir.z as int, step, len);
        if -2 * POS_LIMIT <= nx <= 2 * POS_LIMIT && -2 * POS_LIMIT <= ny <= 2 * POS_LIMIT
            && -2 * POS_LIMIT <= nz <= 2 * POS_LIMIT {
            Vec3 { x: nx as i64, y: ny as i64, z: nz as i64 }
        } else {
            pos
        }
    }
}

/// Advances a position along a direction by one tick's displacement.
pub fn travel(pos: Vec3, dir: Vec3, step: u64) -> (p: Vec3)
    requires
        pos.within(2 * POS_LIMIT),
        dir.within(4 * POS_LIMIT),
        step <= STEP_MAX,
    ensures
        p == spec_travel(pos, dir, step as int),
        p.within(2 * POS_LIMIT),
{
    let ns: i128 = norm_sq_ex(dir);
    proof {
        lemma_sq_bound(dir.x as int);
        lemma_sq_bound(dir.y as int);
        lemma_sq_bound(dir.z as int);
    }
    let len: u128 = isqrt(ns as u128);
    if len == 0 {
        pos
    } else {
        proof {
            lemma_comp_le_sqrt(dir.x as int, ns as int, len as int);
            lemma_comp_le_sqrt(dir.y as int, ns as int, len as int);
            lemma_comp_le_sqrt(dir.z as int, ns as int, len as int);
        }
        let dx: i128 = disp_ex(dir.x, step, len);
        let dy: i128 = disp_ex(dir.y, step, len);
        let dz: i128 = disp_ex(dir.z, step, len);
        let nx: i128 = (pos.x as i128) + dx;
        let ny: i128 = (pos.y as i128) + dy;
        let nz: i128 = (pos.z as i128) + dz;
        let b: i128 = 2 * (POS_LIMIT as i128);
        if -b <= nx && nx <= b && -b <= ny && ny <= b && -b <= nz && nz <= b {
            Vec3 { x: nx as i64, y: ny as i64, z: nz as i64 }
        } else {
            pos
        }
    }
}

} // verus!
