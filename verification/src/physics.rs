//! The fixed-step integrator and the render interpolator.
//!
//! Physics runs at a fixed cadence: an accumulator collects variable frame
//! time and releases whole fixed ticks.  Each tick copies the current
//! position into the previous one and advances the current position by
//! velocity times the step, exactly.  The interpolator blends the two
//! positions by the leftover fraction of a tick, in thousandths.

use vstd::prelude::*;

verus! {

use vstd::arithmetic::div_mod::{
    lemma_div_nonincreasing,
    lemma_fundamental_div_mod,
    lemma_mod_division_less_than_divisor,
    lemma_multiply_divide_lt,
};
use crate::geom::{
    lemma_scale_trunc_full,
    lemma_scale_trunc_le,
    lemma_scale_trunc_zero,
    scale_coord,
    scale_trunc,
    Vec3Fix,
    COORD_LIMIT,
};

/// Largest velocity coordinate the integrator accepts, in thousandths of a
/// unit per second.
pub const VEL_LIMIT: i64 = 10_000;

/// Largest frame delta or fixed step the clock accepts, in milliseconds.
pub const FRAME_DT_LIMIT: u64 = 60_000;

/// Largest position coordinate the per-frame passes accept.
pub const POS_LIMIT: i64 = 2_000_000_000;

/// Largest position coordinate a single tick accepts.
pub const TICK_POS_LIMIT: i64 = 3_400_000_000;

/// A product of factors bounded by `ab` and `bb` is bounded by `ab * bb`.
pub proof fn lemma_mul_bounds(a: int, b: int, ab: int, bb: int)
    requires
        -ab <= a <= ab,
        0 <= b <= bb,
        0 <= ab,
    ensures
        -(ab * bb) <= a * b <= ab * bb,
{
    assert(-(ab * bb) <= a * b <= ab * bb) by (nonlinear_arith)
        requires
            -ab <= a <= ab,
            0 <= b <= bb,
            0 <= ab,
    {
    }
}

/// One coordinate after one fixed tick.
pub open spec fn step_coord(p: int, v: int, dt_ms: int) -> int {
    p + v * dt_ms
}

/// One fixed tick of the integrator for a single actor: the previous
/// position becomes the current one and the current position advances by
/// velocity times the fixed step.  Deterministic and exact.
pub fn advance_tick(pos: &mut Vec3Fix, prev: &mut Vec3Fix, vel: &Vec3Fix, dt_ms: u64)
    requires
        old(pos).in_range(TICK_POS_LIMIT as int),
        vel.in_range(VEL_LIMIT as int),
        dt_ms <= FRAME_DT_LIMIT,
    ensures
        *final(prev) == *old(pos),
        final(pos).x == step_coord(old(pos).x as int, vel.x as int, dt_ms as int),
        final(pos).y == step_coord(old(pos).y as int, vel.y as int, dt_ms as int),
        final(pos).z == step_coord(old(pos).z as int, vel.z as int, dt_ms as int),
        final(pos).in_range(COORD_LIMIT as int),
{
    proof {
        lemma_mul_bounds(vel.x as int, dt_ms as int, VEL_LIMIT as int, FRAME_DT_LIMIT as int);
        lemma_mul_bounds(vel.y as int, dt_ms as int, VEL_LIMIT as int, FRAME_DT_LIMIT as int);
        lemma_mul_bounds(vel.z as int, dt_ms as int, VEL_LIMIT as int, FRAME_DT_LIMIT as int);
    }
    *prev = *pos;
    pos.x = pos.x + vel.x * (dt_ms as i64);
    pos.y = pos.y + vel.y * (dt_ms as i64);
    pos.z = pos.z + vel.z * (dt_ms as i64);
}

/// One coordinate after `n` fixed ticks at constant velocity.
pub open spec fn ticks_coord(p0: int, v: int, dt_ms: int, n: nat) -> int
    decreases n,
{
    if n == 0 {
        p0
    } else {
        step_coord(ticks_coord(p0, v, dt_ms, (n - 1) as nat), v, dt_ms)
    }
}

/// Deterministic integration: at constant velocity `v` and fixed step
/// `dt_ms`, `n` ticks advance a coordinate by exactly `n * v * dt_ms`.
pub proof fn lemma_fixed_ticks_linear(p0: int, v: int, dt_ms: int, n: nat)
    ensures
        ticks_coord(p0, v, dt_ms, n) == p0 + n * (v * dt_ms),
    decreases n,
{
    if n == 0 {
        assert(0 * (v * dt_ms) == 0) by (nonlinear_arith) {}
    } else {
        lemma_fixed_ticks_linear(p0, v, dt_ms, (n - 1) as nat);
        assert(n * (v * dt_ms) == (n - 1) * (v * dt_ms) + (v * dt_ms)) by (nonlinear_arith) {}
    }
}

/// The accumulator that reconciles variable frame time with the fixed
/// simulation cadence.
#[derive(Clone, Copy, PartialEq, Eq, Structural, Debug)]
pub struct FixedClock {
    /// Leftover real time not yet consumed by a fixed tick, in milliseconds.
    pub acc_ms: u64,
    /// The fixed simulation step, in milliseconds.
    pub step_ms: u64,
}

impl FixedClock {
    pub open spec fn wf(self) -> bool {
        &&& 0 < self.step_ms <= FRAME_DT_LIMIT
        &&& self.acc_ms < self.step_ms
    }

    pub fn new(step_ms: u64) -> (r: FixedClock)
        requires
            0 < step_ms <= FRAME_DT_LIMIT,
        ensures
            r.wf(),
            r.step_ms == step_ms,
            r.acc_ms == 0,
    {
        FixedClock { acc_ms: 0, step_ms }
    }

    /// Absorb a frame delta and release the number of whole fixed ticks it
    /// covers; what remains is carried over as the new leftover.
    pub fn advance(&mut self, frame_dt_ms: u64) -> (n: u64)
        requires
            old(self).wf(),
            frame_dt_ms <= FRAME_DT_LIMIT,
        ensures
            final(self).wf(),
            final(self).step_ms == old(self).step_ms,
            n == (old(self).acc_ms + frame_dt_ms) as int / old(self).step_ms as int,
            n * old(self).step_ms + final(self).acc_ms == old(self).acc_ms + frame_dt_ms,
            n <= 120_000,
    {
        let total: u64 = self.acc_ms + frame_dt_ms;
        let n: u64 = total / self.step_ms;
        proof {
            lemma_fundamental_div_mod(total as int, self.step_ms as int);
            lemma_mod_division_less_than_divisor(total as int, self.step_ms as int);
            lemma_div_nonincreasing(total as int, self.step_ms as int);
        }
        self.acc_ms = total % self.step_ms;
        n
    }

    /// Fraction of the way into the next not-yet-completed fixed tick, in
    /// thousandths: 0 at a tick boundary, approaching 1000 just before the
    /// next tick.
    pub fn alpha_milli(&self) -> (a: u64)
        requires
            self.wf(),
        ensures
            a == (self.acc_ms * 1000) as int / self.step_ms as int,
            a < 1000,
    {
        proof {
            assert(self.acc_ms * 1000 < self.step_ms * 1000) by (nonlinear_arith)
                requires
                    self.acc_ms < self.step_ms,
            {
            }
            lemma_multiply_divide_lt((self.acc_ms * 1000) as int, self.step_ms as int, 1000);
        }
        self.acc_ms * 1000 / self.step_ms
    }
}

/// The rendered position: the previous physics position blended toward the
/// current one by `alpha_milli` thousandths.  Purely cosmetic; at 0 it is
/// exactly the previous position, at 1000 exactly the current one.
pub fn interpolate(prev: &Vec3Fix, cur: &Vec3Fix, alpha_milli: u64) -> (r: Vec3Fix)
    requires
        alpha_milli <= 1000,
        prev.in_range(COORD_LIMIT as int),
        cur.in_range(COORD_LIMIT as int),
    ensures
        r.x == prev.x + scale_trunc(cur.x - prev.x, alpha_milli as int, 1000),
        r.y == prev.y + scale_trunc(cur.y - prev.y, alpha_milli as int, 1000),
        r.z == prev.z + scale_trunc(cur.z - prev.z, alpha_milli as int, 1000),
        alpha_milli == 0 ==> r == *prev,
        alpha_milli == 1000 ==> r == *cur,
        r.in_range(COORD_LIMIT as int),
{
    proof {
        lemma_scale_trunc_le(cur.x - prev.x, alpha_milli as int, 1000);
        lemma_scale_trunc_le(cur.y - prev.y, alpha_milli as int, 1000);
        lemma_scale_trunc_le(cur.z - prev.z, alpha_milli as int, 1000);
        if alpha_milli == 0 {
            lemma_scale_trunc_zero(cur.x - prev.x, 1000);
            lemma_scale_trunc_zero(cur.y - prev.y, 1000);
            lemma_scale_trunc_zero(cur.z - prev.z, 1000);
        }
        if alpha_milli == 1000 {
            lemma_scale_trunc_full(cur.x - prev.x, 1000);
            lemma_scale_trunc_full(cur.y - prev.y, 1000);
            lemma_scale_trunc_full(cur.z - prev.z, 1000);
        }
    }
    let x: i64 = prev.x + scale_coord(cur.x - prev.x, alpha_milli, 1000);
    let y: i64 = prev.y + scale_coord(cur.y - prev.y, alpha_milli, 1000);
    let z: i64 = prev.z + scale_coord(cur.z - prev.z, alpha_milli, 1000);
    Vec3Fix { x, y, z }
}

} // verus!
