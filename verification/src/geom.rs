//! Fixed-point 3D geometry.
//!
//! Positions are held in millionths of a world unit, so all distance and
//! interpolation rules are exact integer arithmetic.  Squared distances are
//! computed in 128-bit arithmetic; direction scaling divides by an integer
//! square root of the squared distance.

use vstd::prelude::*;

verus! {

use vstd::arithmetic::div_mod::{
    lemma_div_is_ordered,
    lemma_div_multiples_vanish,
    lemma_div_nonincreasing,
    lemma_div_pos_is_pos,
};
use vstd::arithmetic::mul::lemma_mul_inequality;

/// One world unit, in coordinate ticks.
pub const MICROS_PER_UNIT: i64 = 1_000_000;

/// Largest coordinate magnitude the geometry helpers accept.
pub const COORD_LIMIT: i64 = 4_000_000_000;

/// A 3D point or vector in fixed-point world coordinates.
#[derive(Clone, Copy, PartialEq, Eq, Structural, Debug)]
pub struct Vec3Fix {
    pub x: i64,
    pub y: i64,
    pub z: i64,
}

impl Vec3Fix {
    /// The origin / null vector.
    pub open spec fn spec_zero() -> Vec3Fix {
        Vec3Fix { x: 0, y: 0, z: 0 }
    }

    pub fn zero() -> (r: Vec3Fix)
        ensures
            r == Self::spec_zero(),
    {
        Vec3Fix { x: 0, y: 0, z: 0 }
    }

    /// Every coordinate lies within `limit` of the origin.
    pub open spec fn in_range(self, limit: int) -> bool {
        &&& -limit <= self.x <= limit
        &&& -limit <= self.y <= limit
        &&& -limit <= self.z <= limit
    }
}

/// Mathematical squared distance between two points.
pub open spec fn dist_sq(a: Vec3Fix, b: Vec3Fix) -> int {
    (a.x - b.x) * (a.x - b.x) + (a.y - b.y) * (a.y - b.y) + (a.z - b.z) * (a.z - b.z)
}

/// Squared distance, computed exactly in 128-bit arithmetic.
pub fn dist_sq_i128(a: &Vec3Fix, b: &Vec3Fix) -> (r: i128)
    requires
        a.in_range(COORD_LIMIT as int),
        b.in_range(COORD_LIMIT as int),
    ensures
        r == dist_sq(*a, *b),
        0 <= r <= 200_000_000_000_000_000_000,
{
    let dx: i128 = a.x as i128 - b.x as i128;
    let dy: i128 = a.y as i128 - b.y as i128;
    let dz: i128 = a.z as i128 - b.z as i128;
    proof {
        lemma_square_range(dx as int, 8_000_000_000);
        lemma_square_range(dy as int, 8_000_000_000);
        lemma_square_range(dz as int, 8_000_000_000);
    }
    dx * dx + dy * dy + dz * dz
}

/// Squaring is insensitive to sign.
pub proof fn lemma_square_neg(a: int)
    ensures
        (-a) * (-a) == a * a,
{
    assert((-a) * (-a) == a * a) by (nonlinear_arith) {}
}

/// A square of a number bounded by `b` lies in `[0, b*b]`.
pub proof fn lemma_square_range(d: int, b: int)
    requires
        -b <= d <= b,
    ensures
        0 <= d * d <= b * b,
{
    assert(0 <= d * d <= b * b) by (nonlinear_arith)
        requires
            -b <= d <= b,
    {
    }
}

/// `r` is the integer square root of `n`.
pub open spec fn is_int_sqrt(n: int, r: int) -> bool {
    &&& 0 <= r
    &&& r * r <= n
    &&& n < (r + 1) * (r + 1)
}

/// The integer square root (defined for nonnegative arguments).
pub open spec fn int_sqrt(n: int) -> int {
    choose|r: int| is_int_sqrt(n, r)
}

/// The integer square root is unique.
pub proof fn lemma_int_sqrt_unique(n: int, r: int)
    requires
        is_int_sqrt(n, r),
    ensures
        int_sqrt(n) == r,
{
    assert(exists|q: int| is_int_sqrt(n, q)) by {
        assert(is_int_sqrt(n, r));
    }
    let q = int_sqrt(n);
    assert(is_int_sqrt(n, q));
    if q < r {
        assert((q + 1) * (q + 1) <= r * r) by (nonlinear_arith)
            requires
                0 <= q + 1 <= r,
        {
        }
        assert(false);
    }
    if r < q {
        assert((r + 1) * (r + 1) <= q * q) by (nonlinear_arith)
            requires
                0 <= r + 1 <= q,
        {
        }
        assert(false);
    }
}

/// A coordinate whose square is at most `n` is bounded by the root of `n`.
pub proof fn lemma_component_le_sqrt(d: int, n: int, r: int)
    requires
        d * d <= n,
        is_int_sqrt(n, r),
    ensures
        -r <= d <= r,
{
    if d > r {
        assert((r + 1) * (r + 1) <= d * d) by (nonlinear_arith)
            requires
                0 <= r + 1 <= d,
        {
        }
        assert(false);
    }
    if d < -r {
        assert((r + 1) * (r + 1) <= d * d) by (nonlinear_arith)
            requires
                0 <= r + 1,
                d <= -(r + 1),
        {
        }
        assert(false);
    }
}

/// Integer square root by binary search.
pub fn isqrt(n: u128) -> (r: u64)
    requires
        n <= 200_000_000_000_000_000_000,
    ensures
        is_int_sqrt(n as int, r as int),
        r as int == int_sqrt(n as int),
        r < 17_179_869_184,
{
    let mut lo: u64 = 0;
    let mut hi: u64 = 17_179_869_184;
    assert((17_179_869_184 as int) * (17_179_869_184 as int) > n as int) by (nonlinear_arith)
        requires
            n <= 200_000_000_000_000_000_000,
    {
    }
    while lo + 1 < hi
        invariant
            lo < hi <= 17_179_869_184,
            (lo as int) * (lo as int) <= n as int,
            (n as int) < (hi as int) * (hi as int),
        decreases hi - lo,
    {
        let mid: u64 = lo + (hi - lo) / 2;
        proof {
            lemma_square_range(mid as int, 17_179_869_184);
        }
        let sq: u128 = (mid as u128) * (mid as u128);
        if sq <= n {
            lo = mid;
        } else {
            hi = mid;
        }
    }
    proof {
        lemma_int_sqrt_unique(n as int, lo as int);
    }
    lo
}

/// How many exact unit directions the compass table holds.
pub const DIR_COUNT: u64 = 28;

/// `(dx, dz)` is an exact unit vector in the horizontal plane, in
/// thousandths.
pub open spec fn unit_xz(dx: int, dz: int) -> bool {
    dx * dx + dz * dz == 1_000_000
}

/// A compass of twenty-eight exact unit directions around the circle, in
/// thousandths: every integer point on the circle of radius one thousand.
/// Each entry satisfies `unit_xz` exactly, so a point placed `r`
/// thousandth-units along one of them lies at distance exactly `r` from the
/// origin.  A uniform draw over the table stands in for a uniform random
/// azimuth, quantized so the circle radii stay exact in integers.
pub fn circle_dir(i: u64) -> (d: (i64, i64))
    requires
        i < DIR_COUNT,
    ensures
        unit_xz(d.0 as int, d.1 as int),
        -1000 <= d.0 <= 1000,
        -1000 <= d.1 <= 1000,
{
    if i == 0 {
        proof {
            assert((1000int) * (1000int) + (0int) * (0int) == 1_000_000) by (nonlinear_arith) {}
        }
        (1000, 0)
    } else if i == 1 {
        proof {
            assert((960int) * (960int) + (280int) * (280int) == 1_000_000) by (nonlinear_arith) {}
        }
        (960, 280)
    } else if i == 2 {
        proof {
            assert((936int) * (936int) + (352int) * (352int) == 1_000_000) by (nonlinear_arith) {}
        }
        (936, 352)
    } else if i == 3 {
        proof {
            assert((800int) * (800int) + (600int) * (600int) == 1_000_000) by (nonlinear_arith) {}
        }
        (800, 600)
    } else if i == 4 {
        proof {
            assert((600int) * (600int) + (800int) * (800int) == 1_000_000) by (nonlinear_arith) {}
        }
        (600, 800)
    } else if i == 5 {
        proof {
            assert((352int) * (352int) + (936int) * (936int) == 1_000_000) by (nonlinear_arith) {}
        }
        (352, 936)
    } else if i == 6 {
        proof {
            assert((280int) * (280int) + (960int) * (960int) == 1_000_000) by (nonlinear_arith) {}
        }
        (280, 960)
    } else if i == 7 {
        proof {
            assert((0int) * (0int) + (1000int) * (1000int) == 1_000_000) by (nonlinear_arith) {}
        }
        (0, 1000)
    } else if i == 8 {
        proof {
            assert((-280int) * (-280int) + (960int) * (960int) == 1_000_000) by (nonlinear_arith) {}
        }
        (-280, 960)
    } else if i == 9 {
        proof {
            assert((-352int) * (-352int) + (936int) * (936int) == 1_000_000) by (nonlinear_arith) {}
        }
        (-352, 936)
    } else if i == 10 {
        proof {
            assert((-600int) * (-600int) + (800int) * (800int) == 1_000_000) by (nonlinear_arith) {}
        }
        (-600, 800)
    } else if i == 11 {
        proof {
            assert((-800int) * (-800int) + (600int) * (600int) == 1_000_000) by (nonlinear_arith) {}
        }
        (-800, 600)
    } else if i == 12 {
        proof {
            assert((-936int) * (-936int) + (352int) * (352int) == 1_000_000) by (nonlinear_arith) {}
        }
        (-936, 352)
    } else if i == 13 {
        proof {
            assert((-960int) * (-960int) + (280int) * (280int) == 1_000_000) by (nonlinear_arith) {}
        }
        (-960, 280)
    } else if i == 14 {
        proof {
            assert((-1000int) * (-1000int) + (0int) * (0int) == 1_000_000) by (nonlinear_arith) {}
        }
        (-1000, 0)
    } else if i == 15 {
        proof {
            assert((-960int) * (-960int) + (-280int) * (-280int) == 1_000_000) by (nonlinear_arith) {}
        }
        (-960, -280)
    } else if i == 16 {
        proof {
            assert((-936int) * (-936int) + (-352int) * (-352int) == 1_000_000) by (nonlinear_arith) {}
        }
        (-936, -352)
    } else if i == 17 {
        proof {
            assert((-800int) * (-800int) + (-600int) * (-600int) == 1_000_000) by (nonlinear_arith) {}
        }
        (-800, -600)
    } else if i == 18 {
        proof {
            assert((-600int) * (-600int) + (-800int) * (-800int) == 1_000_000) by (nonlinear_arith) {}
        }
        (-600, -800)
    } else if i == 19 {
        proof {
            assert((-352int) * (-352int) + (-936int) * (-936int) == 1_000_000) by (nonlinear_arith) {}
        }
        (-352, -936)
    } else if i == 20 {
        proof {
            assert((-280int) * (-280int) + (-960int) * (-960int) == 1_000_000) by (nonlinear_arith) {}
        }
        (-280, -960)
    } else if i == 21 {
        proof {
            assert((0int) * (0int) + (-1000int) * (-1000int) == 1_000_000) by (nonlinear_arith) {}
        }
        (0, -1000)
    } else if i == 22 {
        proof {
            assert((280int) * (280int) + (-960int) * (-960int) == 1_000_000) by (nonlinear_arith) {}
        }
        (280, -960)
    } else if i == 23 {
        proof {
            assert((352int) * (352int) + (-936int) * (-936int) == 1_000_000) by (nonlinear_arith) {}
        }
        (352, -936)
    } else if i == 24 {
        proof {
            assert((600int) * (600int) + (-800int) * (-800int) == 1_000_000) by (nonlinear_arith) {}
        }
        (600, -800)
    } else if i == 25 {
        proof {
            assert((800int) * (800int) + (-600int) * (-600int) == 1_000_000) by (nonlinear_arith) {}
        }
        (800, -600)
    } else if i == 26 {
        proof {
            assert((936int) * (936int) + (-352int) * (-352int) == 1_000_000) by (nonlinear_arith) {}
        }
        (936, -352)
    } else {
        proof {
            assert((960int) * (960int) + (-280int) * (-280int) == 1_000_000) by (nonlinear_arith) {}
        }
        (960, -280)
    }
}

/// Truncating scaled ratio: the sign of `d` times `|d| * num / den`.
pub open spec fn scale_trunc(d: int, num: int, den: int) -> int {
    if d >= 0 {
        (d * num) / den
    } else {
        -((-d * num) / den)
    }
}

/// `scale_trunc`, executed on machine integers.
pub fn scale_coord(d: i64, num: u64, den: u64) -> (r: i64)
    requires
        den > 0,
        num <= 1_000_000,
        -9_000_000_000 <= d <= 9_000_000_000,
    ensures
        r == scale_trunc(d as int, num as int, den as int),
{
    if d >= 0 {
        proof {
            lemma_mul_inequality(d as int, 9_000_000_000, num as int);
            lemma_div_nonincreasing((d as int) * (num as int), den as int);
            lemma_div_pos_is_pos((d as int) * (num as int), den as int);
        }
        let q: u64 = (d as u64) * num / den;
        q as i64
    } else {
        proof {
            lemma_mul_inequality(-(d as int), 9_000_000_000, num as int);
            lemma_div_nonincreasing(-(d as int) * (num as int), den as int);
            lemma_div_pos_is_pos(-(d as int) * (num as int), den as int);
        }
        let m: u64 = ((-d) as u64) * num / den;
        -(m as i64)
    }
}

/// The scaled ratio of `d` with `num <= den` stays between `0` and `d`.
pub proof fn lemma_scale_trunc_le(d: int, num: int, den: int)
    requires
        0 < den,
        0 <= num <= den,
    ensures
        d >= 0 ==> 0 <= scale_trunc(d, num, den) <= d,
        d < 0 ==> d <= scale_trunc(d, num, den) <= 0,
{
    if d >= 0 {
        lemma_mul_inequality(num, den, d);
        assert(d * num == num * d) by (nonlinear_arith) {}
        assert(d * den == den * d) by (nonlinear_arith) {}
        lemma_div_is_ordered(d * num, d * den, den);
        lemma_div_multiples_vanish(d, den);
        lemma_div_pos_is_pos(d * num, den);
    } else {
        lemma_mul_inequality(num, den, -d);
        assert(-d * num == num * -d) by (nonlinear_arith) {}
        assert(-d * den == den * -d) by (nonlinear_arith) {}
        lemma_div_is_ordered(-d * num, -d * den, den);
        lemma_div_multiples_vanish(-d, den);
        lemma_div_pos_is_pos(-d * num, den);
    }
}

/// The scaled ratio of a coordinate bounded by `den` is bounded by `num`.
pub proof fn lemma_scale_trunc_bound(d: int, num: int, den: int)
    requires
        0 < den,
        0 <= num,
        -den <= d <= den,
    ensures
        -num <= scale_trunc(d, num, den) <= num,
{
    if d >= 0 {
        lemma_mul_inequality(d, den, num);
        lemma_div_is_ordered(d * num, den * num, den);
        lemma_div_multiples_vanish(num, den);
        lemma_div_pos_is_pos(d * num, den);
    } else {
        lemma_mul_inequality(-d, den, num);
        lemma_div_is_ordered(-d * num, den * num, den);
        lemma_div_multiples_vanish(num, den);
        lemma_div_pos_is_pos(-d * num, den);
    }
}

/// Scaling by a full ratio is the identity.
pub proof fn lemma_scale_trunc_full(d: int, den: int)
    requires
        0 < den,
    ensures
        scale_trunc(d, den, den) == d,
{
    if d >= 0 {
        assert(d * den == den * d) by (nonlinear_arith) {}
        lemma_div_multiples_vanish(d, den);
    } else {
        assert(-d * den == den * -d) by (nonlinear_arith) {}
        lemma_div_multiples_vanish(-d, den);
    }
}

/// Scaling by a zero ratio gives zero.
pub proof fn lemma_scale_trunc_zero(d: int, den: int)
    requires
        0 < den,
    ensures
        scale_trunc(d, 0, den) == 0,
{
    if d >= 0 {
        assert(d * 0 == 0) by (nonlinear_arith) {}
        assert(0int / den == 0) by {
            lemma_div_pos_is_pos(0, den);
            lemma_div_nonincreasing(0, den);
        }
    } else {
        assert(-d * 0 == 0) by (nonlinear_arith) {}
        assert(0int / den == 0) by {
            lemma_div_pos_is_pos(0, den);
            lemma_div_nonincreasing(0, den);
        }
    }
}

} // verus!
