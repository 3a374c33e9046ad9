//! Fixed-point world-space vectors and the arithmetic the pipeline stages
//! share: dot products, truncating division, and coordinate bounds.

use vstd::prelude::*;

verus! {

/// One world-space unit expressed in fixed-point coordinates.
pub const FP_ONE: i64 = 1024;

/// Largest magnitude a fixed-point world coordinate may have.  Keeping every
/// coordinate inside this bound lets all distance and lighting products fit
/// comfortably in 64-bit arithmetic.
pub const COORD_LIMIT: i64 = 1048576;

/// A world-space vector in fixed-point coordinates ([`FP_ONE`] per unit).
#[derive(Clone, Copy, PartialEq, Eq, Structural, Debug)]
pub struct Vec3i {
    pub x: i64,
    pub y: i64,
    pub z: i64,
}

impl Vec3i {
    /// All three coordinates lie within `limit` in magnitude.
    pub open spec fn in_range(self, limit: int) -> bool {
        &&& -limit <= self.x <= limit
        &&& -limit <= self.y <= limit
        &&& -limit <= self.z <= limit
    }

    pub fn new(x: i64, y: i64, z: i64) -> (v: Vec3i)
        ensures
            v == (Vec3i { x, y, z }),
    {
        Vec3i { x, y, z }
    }
}

/// Truncating division as the hardware performs it on signed integers:
/// rounding toward zero rather than toward negative infinity.
pub open spec fn tdiv(a: int, b: int) -> int {
    if a >= 0 {
        a / b
    } else {
        -((-a) / b)
    }
}

/// Squared fixed-point distance between two points.
pub open spec fn dist2(p: Vec3i, q: Vec3i) -> int {
    (q.x - p.x) * (q.x - p.x) + (q.y - p.y) * (q.y - p.y) + (q.z - p.z) * (q.z - p.z)
}

/// `|a * b| <= m * n` whenever `|a| <= m` and `|b| <= n`.
pub proof fn lemma_mul_bound(a: int, b: int, m: int, n: int)
    requires
        -m <= a <= m,
        -n <= b <= n,
        0 <= m,
        0 <= n,
    ensures
        -(m * n) <= a * b <= m * n,
{
    assert(-(m * n) <= a * b <= m * n) by (nonlinear_arith)
        requires
            -m <= a <= m,
            -n <= b <= n,
            0 <= m,
            0 <= n,
    ;
}

/// A non-negative dividend over a positive divisor stays non-negative, and
/// never exceeds the dividend.
pub proof fn lemma_div_pos_bounds(a: int, d: int)
    requires
        0 <= a,
        0 < d,
    ensures
        0 <= a / d <= a,
{
    vstd::arithmetic::div_mod::lemma_div_is_ordered_by_denominator(a, 1, d);
    assert(a / 1 == a) by (nonlinear_arith);
    vstd::arithmetic::div_mod::lemma_div_pos_is_pos(a, d);
}

/// Squared distance between two bounded points, computed in 64-bit arithmetic.
pub fn dist2_exec(p: Vec3i, q: Vec3i) -> (r: i64)
    requires
        p.in_range(2 * COORD_LIMIT as int),
        q.in_range(2 * COORD_LIMIT as int),
    ensures
        r == dist2(p, q),
        0 <= r <= 52776558133248,
{
    let dx = q.x - p.x;
    let dy = q.y - p.y;
    let dz = q.z - p.z;
    proof {
        let l = 4 * COORD_LIMIT as int;
        lemma_mul_bound(dx as int, dx as int, l, l);
        lemma_mul_bound(dy as int, dy as int, l, l);
        lemma_mul_bound(dz as int, dz as int, l, l);
        assert(dx * dx >= 0) by (nonlinear_arith);
        assert(dy * dy >= 0) by (nonlinear_arith);
        assert(dz * dz >= 0) by (nonlinear_arith);
    }
    dx * dx + dy * dy + dz * dz
}

} // verus!
