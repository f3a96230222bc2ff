//! Fixed-point geometry: exact integer roots and a millimetre-scale
//! 3-vector.
//!
//! Every quantity of the kernel is an integer: positions in millimetres,
//! velocities in millimetres per second. Squared distances are compared
//! directly, so proximity tests need no square root at all; where a
//! magnitude is needed (the gravity law, a fragment direction) the floor
//! square root is computed and proved exact.

use vstd::prelude::*;

verus! {

/// Largest coordinate magnitude (millimetres) the geometry accepts; wide
/// enough for any modeled orbit and small enough that a squared distance
/// always fits in `i128`.
pub const COORD_LIMIT: i64 = 1_000_000_000_000_000_000;

/// Floor of the real square root, defined by counting up; the recursion is
/// only ever unfolded in proofs.
pub open spec fn spec_isqrt(n: nat) -> nat
    decreases n,
{
    if n == 0 {
        0
    } else {
        let r = spec_isqrt((n - 1) as nat);
        if (r + 1) * (r + 1) <= n {
            r + 1
        } else {
            r
        }
    }
}

/// `spec_isqrt(n)` really is the floor square root: its square is at most
/// `n` and the next square is beyond `n`.
pub proof fn lemma_isqrt_bounds(n: nat)
    ensures
        spec_isqrt(n) * spec_isqrt(n) <= n,
        n < (spec_isqrt(n) + 1) * (spec_isqrt(n) + 1),
    decreases n,
{
    if n > 0 {
        lemma_isqrt_bounds((n - 1) as nat);
        let r = spec_isqrt((n - 1) as nat);
        if (r + 1) * (r + 1) <= n {
            assert(spec_isqrt(n) == r + 1);
            assert(spec_isqrt(n) * spec_isqrt(n) <= n && n < (spec_isqrt(n) + 1) * (spec_isqrt(n)
                + 1)) by (nonlinear_arith)
                requires
                    spec_isqrt(n) == r + 1,
                    (r + 1) * (r + 1) <= n,
                    n - 1 < (r + 1) * (r + 1),
            ;
        } else {
            assert(spec_isqrt(n) == r);
            assert(spec_isqrt(n) * spec_isqrt(n) <= n && n < (spec_isqrt(n) + 1) * (spec_isqrt(n)
                + 1)) by (nonlinear_arith)
                requires
                    spec_isqrt(n) == r,
                    r * r <= n - 1,
                    (r + 1) * (r + 1) > n,
            ;
        }
    } else {
        assert(spec_isqrt(n) * spec_isqrt(n) <= n && n < (spec_isqrt(n) + 1) * (spec_isqrt(n) + 1))
            by (nonlinear_arith)
            requires
                spec_isqrt(n) == 0,
                n == 0,
        ;
    }
}

/// Any integer whose square is at most `n`, while the next square exceeds
/// `n`, is `spec_isqrt(n)`: the floor square root is unique.
pub proof fn lemma_isqrt_unique(n: nat, r: nat)
    requires
        r * r <= n,
        n < (r + 1) * (r + 1),
    ensures
        r == spec_isqrt(n),
{
    lemma_isqrt_bounds(n);
    let s = spec_isqrt(n);
    assert(r == s) by (nonlinear_arith)
        requires
            r * r <= n,
            n < (r + 1) * (r + 1),
            s * s <= n,
            n < (s + 1) * (s + 1),
    ;
}

/// Floor square root of a 128-bit integer, by binary search.
pub fn isqrt_u128(n: u128) -> (r: u128)
    ensures
        r == spec_isqrt(n as nat),
        r * r <= n,
        n < (r + 1) * (r + 1),
{
    proof {
        lemma_isqrt_bounds(n as nat);
    }
    if n == 0 {
        return 0;
    }
    let mut lo: u128 = 0;
    let mut hi: u128 = 0x1_0000_0000_0000_0000;
    while lo + 1 < hi
        invariant
            lo < hi,
            hi <= 0x1_0000_0000_0000_0000,
            lo * lo <= n,
            n < hi * hi,
        decreases hi - lo,
    {
        let mid: u128 = lo + (hi - lo) / 2;
        proof {
            assert(mid * mid <= 0xffff_ffff_ffff_ffff * 0xffff_ffff_ffff_ffff_int)
                by (nonlinear_arith)
                requires
                    mid <= 0xffff_ffff_ffff_ffff,
            ;
        }
        if mid * mid <= n {
            lo = mid;
        } else {
            hi = mid;
        }
    }
    proof {
        lemma_isqrt_unique(n as nat, lo as nat);
    }
    lo
}

/// Floor of the real cube root, defined by counting up.
pub open spec fn spec_icbrt(n: nat) -> nat
    decreases n,
{
    if n == 0 {
        0
    } else {
        let r = spec_icbrt((n - 1) as nat);
        if (r + 1) * (r + 1) * (r + 1) <= n {
            r + 1
        } else {
            r
        }
    }
}

/// `spec_icbrt(n)` really is the floor cube root.
pub proof fn lemma_icbrt_bounds(n: nat)
    ensures
        spec_icbrt(n) * spec_icbrt(n) * spec_icbrt(n) <= n,
        n < (spec_icbrt(n) + 1) * (spec_icbrt(n) + 1) * (spec_icbrt(n) + 1),
    decreases n,
{
    if n > 0 {
        lemma_icbrt_bounds((n - 1) as nat);
        let r = spec_icbrt((n - 1) as nat);
        if (r + 1) * (r + 1) * (r + 1) <= n {
            assert(spec_icbrt(n) == r + 1);
            assert(spec_icbrt(n) * spec_icbrt(n) * spec_icbrt(n) <= n && n < (spec_icbrt(n) + 1) * (
            spec_icbrt(n) + 1) * (spec_icbrt(n) + 1)) by (nonlinear_arith)
                requires
                    spec_icbrt(n) == r + 1,
                    (r + 1) * (r + 1) * (r + 1) <= n,
                    n - 1 < (r + 1) * (r + 1) * (r + 1),
                    r >= 0,
            ;
        } else {
            assert(spec_icbrt(n) == r);
            assert(spec_icbrt(n) * spec_icbrt(n) * spec_icbrt(n) <= n && n < (spec_icbrt(n) + 1) * (
            spec_icbrt(n) + 1) * (spec_icbrt(n) + 1)) by (nonlinear_arith)
                requires
                    spec_icbrt(n) == r,
                    r * r * r <= n - 1,
                    (r + 1) * (r + 1) * (r + 1) > n,
            ;
        }
    } else {
        assert(spec_icbrt(n) * spec_icbrt(n) * spec_icbrt(n) <= n && n < (spec_icbrt(n) + 1) * (
        spec_icbrt(n) + 1) * (spec_icbrt(n) + 1)) by (nonlinear_arith)
            requires
                spec_icbrt(n) == 0,
                n == 0,
        ;
    }
}

/// The floor cube root is unique.
pub proof fn lemma_icbrt_unique(n: nat, r: nat)
    requires
        r * r * r <= n,
        n < (r + 1) * (r + 1) * (r + 1),
    ensures
        r == spec_icbrt(n),
{
    lemma_icbrt_bounds(n);
    let s = spec_icbrt(n);
    assert(r == s) by (nonlinear_arith)
        requires
            r * r * r <= n,
            n < (r + 1) * (r + 1) * (r + 1),
            s * s * s <= n,
            n < (s + 1) * (s + 1) * (s + 1),
    ;
}

/// Floor cube root of a 64-bit integer, by binary search.
pub fn icbrt_u64(n: u64) -> (r: u64)
    ensures
        r == spec_icbrt(n as nat),
        r * r * r <= n,
        n < (r + 1) * (r + 1) * (r + 1),
{
    proof {
        lemma_icbrt_bounds(n as nat);
    }
    if n == 0 {
        return 0;
    }
    let mut lo: u64 = 0;
    let mut hi: u64 = 0x40_0000;
    proof {
        assert((0x40_0000_u64 as int) * 0x40_0000 * 0x40_0000 > n) by (nonlinear_arith)
            requires
                n < 0x1_0000_0000_0000_0000,
        ;
    }
    while lo + 1 < hi
        invariant
            lo < hi,
            hi <= 0x40_0000,
            lo * lo * lo <= n,
            n < hi * hi * hi,
        decreases hi - lo,
    {
        let mid: u64 = lo + (hi - lo) / 2;
        proof {
            assert((mid as u128) * (mid as u128) <= 17592186044416int) by (nonlinear_arith)
                requires
                    mid <= 0x40_0000,
            ;
            assert((mid as u128) * (mid as u128) * (mid as u128) <= 73786976294838206464int)
                by (nonlinear_arith)
                requires
                    mid <= 0x40_0000,
            ;
        }
        let cube: u128 = (mid as u128) * (mid as u128) * (mid as u128);
        if cube <= n as u128 {
            lo = mid;
        } else {
            hi = mid;
        }
    }
    proof {
        lemma_icbrt_unique(n as nat, lo as nat);
    }
    lo
}

/// A 3-vector of fixed-point integers: millimetres for positions,
/// millimetres per second for velocities.
#[derive(Clone, Copy, PartialEq, Eq, Structural, Debug)]
pub struct Vec3 {
    pub x: i64,
    pub y: i64,
    pub z: i64,
}

/// Whether every coordinate of `v` is within the accepted magnitude.
pub open spec fn spec_in_bounds(v: Vec3) -> bool {
    -COORD_LIMIT <= v.x <= COORD_LIMIT && -COORD_LIMIT <= v.y <= COORD_LIMIT && -COORD_LIMIT <= v.z
        <= COORD_LIMIT
}

/// Squared Euclidean length of `v`.
pub open spec fn spec_norm_sq(v: Vec3) -> int {
    v.x * v.x + v.y * v.y + v.z * v.z
}

/// Squared Euclidean distance between `a` and `b`.
pub open spec fn spec_dist_sq(a: Vec3, b: Vec3) -> int {
    (a.x - b.x) * (a.x - b.x) + (a.y - b.y) * (a.y - b.y) + (a.z - b.z) * (a.z - b.z)
}

impl Vec3 {
    pub fn new(x: i64, y: i64, z: i64) -> (v: Vec3)
        ensures
            v == (Vec3 { x, y, z }),
    {
        Vec3 { x, y, z }
    }

    /// The zero vector.
    pub fn zero() -> (v: Vec3)
        ensures
            v == (Vec3 { x: 0, y: 0, z: 0 }),
    {
        Vec3 { x: 0, y: 0, z: 0 }
    }

    /// Whether every coordinate is within the accepted magnitude.
    pub fn in_bounds(&self) -> (b: bool)
        ensures
            b == spec_in_bounds(*self),
    {
        -COORD_LIMIT <= self.x && self.x <= COORD_LIMIT && -COORD_LIMIT <= self.y && self.y
            <= COORD_LIMIT && -COORD_LIMIT <= self.z && self.z <= COORD_LIMIT
    }

    /// Squared Euclidean length.
    pub fn norm_sq(&self) -> (n: i128)
        requires
            spec_in_bounds(*self),
        ensures
            n == spec_norm_sq(*self),
            0 <= n,
    {
        let x: i128 = self.x as i128;
        let y: i128 = self.y as i128;
        let z: i128 = self.z as i128;
        proof {
            assert(x * x >= 0 && x * x <= COORD_LIMIT as int * COORD_LIMIT as int)
                by (nonlinear_arith)
                requires
                    -COORD_LIMIT <= x <= COORD_LIMIT,
            ;
            assert(y * y >= 0 && y * y <= COORD_LIMIT as int * COORD_LIMIT as int)
                by (nonlinear_arith)
                requires
                    -COORD_LIMIT <= y <= COORD_LIMIT,
            ;
            assert(z * z >= 0 && z * z <= COORD_LIMIT as int * COORD_LIMIT as int)
                by (nonlinear_arith)
                requires
                    -COORD_LIMIT <= z <= COORD_LIMIT,
            ;
        }
        x * x + y * y + z * z
    }

    /// Euclidean length, rounded down to the nearest integer.
    pub fn norm(&self) -> (n: u64)
        requires
            spec_in_bounds(*self),
        ensures
            n == spec_isqrt(spec_norm_sq(*self) as nat),
            n * n <= spec_norm_sq(*self),
            spec_norm_sq(*self) < (n + 1) * (n + 1),
    {
        let sq: i128 = self.norm_sq();
        proof {
            assert(self.x * self.x + self.y * self.y + self.z * self.z <= 3 * (
            1_000_000_000_000_000_000 * 1_000_000_000_000_000_000_int)) by (nonlinear_arith)
                requires
                    -1_000_000_000_000_000_000 <= self.x <= 1_000_000_000_000_000_000,
                    -1_000_000_000_000_000_000 <= self.y <= 1_000_000_000_000_000_000,
                    -1_000_000_000_000_000_000 <= self.z <= 1_000_000_000_000_000_000,
            ;
        }
        let root: u128 = isqrt_u128(sq as u128);
        proof {
            assert((root as int) * (root as int) <= sq);
            assert(root <= 0xffff_ffff_ffff_ffff) by (nonlinear_arith)
                requires
                    (root as int) * (root as int) <= sq,
                    sq <= 3 * (1_000_000_000_000_000_000 * 1_000_000_000_000_000_000_int),
            ;
        }
        root as u64
    }

    /// Squared Euclidean distance to `other`.
    pub fn dist_sq(&self, other: &Vec3) -> (n: i128)
        requires
            spec_in_bounds(*self),
            spec_in_bounds(*other),
        ensures
            n == spec_dist_sq(*self, *other),
            0 <= n,
    {
        let dx: i128 = self.x as i128 - other.x as i128;
        let dy: i128 = self.y as i128 - other.y as i128;
        let dz: i128 = self.z as i128 - other.z as i128;
        proof {
            let lim: int = 2 * COORD_LIMIT as int;
            assert(dx * dx >= 0 && dx * dx <= lim * lim) by (nonlinear_arith)
                requires
                    -lim <= dx <= lim,
                    lim == 2 * COORD_LIMIT as int,
            ;
            assert(dy * dy >= 0 && dy * dy <= lim * lim) by (nonlinear_arith)
                requires
                    -lim <= dy <= lim,
                    lim == 2 * COORD_LIMIT as int,
            ;
            assert(dz * dz >= 0 && dz * dz <= lim * lim) by (nonlinear_arith)
                requires
                    -lim <= dz <= lim,
                    lim == 2 * COORD_LIMIT as int,
            ;
        }
        dx * dx + dy * dy + dz * dz
    }

    /// Component-wise sum.
    pub fn add(&self, other: &Vec3) -> (v: Vec3)
        requires
            spec_in_bounds(*self),
            spec_in_bounds(*other),
        ensures
            v.x == self.x + other.x,
            v.y == self.y + other.y,
            v.z == self.z + other.z,
    {
        Vec3 { x: self.x + other.x, y: self.y + other.y, z: self.z + other.z }
    }

    /// Component-wise difference.
    pub fn sub(&self, other: &Vec3) -> (v: Vec3)
        requires
            spec_in_bounds(*self),
            spec_in_bounds(*other),
        ensures
            v.x == self.x - other.x,
            v.y == self.y - other.y,
            v.z == self.z - other.z,
    {
        Vec3 { x: self.x - other.x, y: self.y - other.y, z: self.z - other.z }
    }
}

/// Distance is symmetric: measuring from either end gives the same
/// squared value.
pub proof fn lemma_dist_sq_symmetric(a: Vec3, b: Vec3)
    ensures
        spec_dist_sq(a, b) == spec_dist_sq(b, a),
{
    assert((a.x - b.x) * (a.x - b.x) == (b.x - a.x) * (b.x - a.x)) by (nonlinear_arith);
    assert((a.y - b.y) * (a.y - b.y) == (b.y - a.y) * (b.y - a.y)) by (nonlinear_arith);
    assert((a.z - b.z) * (a.z - b.z) == (b.z - a.z) * (b.z - a.z)) by (nonlinear_arith);
}

/// Halve an integer, rounding toward zero (the fixed-point analogue of
/// dividing a coordinate by two).
pub open spec fn spec_half(s: int) -> int {
    if s >= 0 {
        s / 2
    } else {
        -((-s) / 2)
    }
}

/// Halve a coordinate, rounding toward zero.
pub fn half_i64(s: i64) -> (h: i64)
    requires
        -COORD_LIMIT <= s <= COORD_LIMIT,
    ensures
        h == spec_half(s as int),
        -COORD_LIMIT <= h <= COORD_LIMIT,
{
    if s >= 0 {
        ((s as u64) / 2) as i64
    } else {
        let m: u64 = (-s) as u64;
        -((m / 2) as i64)
    }
}

/// The point halfway between `a` and `b`, each coordinate rounded toward
/// zero.
pub open spec fn spec_midpoint(a: Vec3, b: Vec3) -> Vec3 {
    Vec3 {
        x: spec_half(a.x + b.x) as i64,
        y: spec_half(a.y + b.y) as i64,
        z: spec_half(a.z + b.z) as i64,
    }
}

/// Midpoint of two points, each coordinate rounded toward zero.
pub fn midpoint(a: &Vec3, b: &Vec3) -> (m: Vec3)
    requires
        spec_in_bounds(*a),
        spec_in_bounds(*b),
    ensures
        m == spec_midpoint(*a, *b),
        spec_in_bounds(m),
{
    let sx: i64 = half_sum(a.x, b.x);
    let sy: i64 = half_sum(a.y, b.y);
    let sz: i64 = half_sum(a.z, b.z);
    Vec3 { x: sx, y: sy, z: sz }
}

/// Half of `a + b`, rounded toward zero, computed without leaving 64 bits.
fn half_sum(a: i64, b: i64) -> (h: i64)
    requires
        -COORD_LIMIT <= a <= COORD_LIMIT,
        -COORD_LIMIT <= b <= COORD_LIMIT,
    ensures
        h == spec_half(a + b),
        -COORD_LIMIT <= h <= COORD_LIMIT,
{
    let s: i128 = a as i128 + b as i128;
    if s >= 0 {
        let q: u128 = (s as u128) / 2;
        q as i64
    } else {
        let m: u128 = (-s) as u128;
        let q: u128 = m / 2;
        -(q as i64)
    }
}

} // verus!
