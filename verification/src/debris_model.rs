//! The debris-generation model: how many fragments a collision spawns,
//! how heavy each is, and how energetic the collision was.
//!
//! The fragment count is a bounded proxy for the NASA standard breakup
//! model: more combined mass and more collision energy yield more
//! fragments, clamped to between 2 and 50. Only a tenth of the combined
//! mass is redistributed into tracked fragments; the rest is treated as
//! untracked or vaporized.

use vstd::prelude::*;
use vstd::arithmetic::div_mod::{lemma_div_is_ordered, lemma_fundamental_div_mod};

use crate::math::{Vec3, isqrt_u128, spec_isqrt, spec_norm_sq};
use crate::bodies::{MASS_LIMIT_MG, VEL_LIMIT_MM_S};

verus! {

/// Fewest fragments one collision spawns.
pub const MIN_DEBRIS_PIECES: u32 = 2;

/// Most fragments one collision spawns.
pub const MAX_DEBRIS_PIECES: u32 = 50;

/// Whether `sqrt(p) + sqrt(q) < t`, decided exactly over the integers.
/// Squaring once turns the question into `p + q + 2·sqrt(p·q) < t²`, and
/// squaring the leftover radical into `4·p·q < (t² − p − q)²`, sound once
/// each side is known non-negative; a `t` at or below the trivial bounds
/// settles it directly.
pub open spec fn spec_sum_sqrt_lt(p: nat, q: nat, t: int) -> bool {
    if t <= 0 {
        false
    } else if t * t <= p + q {
        false
    } else {
        4 * p * q < (t * t - p - q) * (t * t - p - q)
    }
}

/// `round((sqrt(p) + sqrt(q)) / 10^6)`, ties rounded up: the unique `n`
/// with `(2n−1)·10^6 ≤ sqrt(4p) + sqrt(4q) < (2n+1)·10^6`.
pub open spec fn spec_round_sum_sqrt(p: nat, q: nat) -> nat {
    choose|n: nat|
        #![trigger spec_sum_sqrt_lt(4 * p, 4 * q, (2 * (n as int) + 1) * 1_000_000)]
        spec_sum_sqrt_lt(4 * p, 4 * q, (2 * (n as int) + 1) * 1_000_000) && !spec_sum_sqrt_lt(
            4 * p,
            4 * q,
            (2 * (n as int) - 1) * 1_000_000,
        )
}

/// How many fragments a collision of the given energy (joules) and
/// combined mass (milligrams) spawns: the real sum
/// `sqrt(mass in tonnes) + min(sqrt(energy in TJ), 10)` rounded to the
/// nearest integer, clamped to `[2, 50]`. The radicands are scaled by
/// `(10^6)²`: the mass in tonnes becomes `1000·mass_mg`, and capping the
/// energy radical at ten is capping the radicand at `10^14` joules.
pub open spec fn spec_debris_count(energy_j: nat, mass_mg: nat) -> nat {
    let capped: nat = if energy_j > 100_000_000_000_000 {
        100_000_000_000_000
    } else {
        energy_j
    };
    let n = spec_round_sum_sqrt(1000 * mass_mg, capped);
    if n < 2 {
        2
    } else if n > 50 {
        50
    } else {
        n
    }
}

/// A sum of square roots only grows with `t` gone: larger thresholds stay
/// above it.
proof fn lemma_sum_sqrt_lt_mono_t(p: nat, q: nat, t1: int, t2: int)
    requires
        t1 <= t2,
        spec_sum_sqrt_lt(p, q, t1),
    ensures
        spec_sum_sqrt_lt(p, q, t2),
{
    assert(t1 > 0 && t1 * t1 > p + q);
    assert(t2 * t2 >= t1 * t1) by (nonlinear_arith)
        requires
            0 < t1 <= t2,
    ;
    let r1 = t1 * t1 - p - q;
    let r2 = t2 * t2 - p - q;
    assert(r2 * r2 >= r1 * r1) by (nonlinear_arith)
        requires
            0 < r1 <= r2,
    ;
}

/// Smaller radicands keep a sum of square roots below the same threshold.
proof fn lemma_sum_sqrt_lt_mono_rad(p1: nat, q1: nat, p2: nat, q2: nat, t: int)
    requires
        p1 <= p2,
        q1 <= q2,
        spec_sum_sqrt_lt(p2, q2, t),
    ensures
        spec_sum_sqrt_lt(p1, q1, t),
{
    assert(t > 0 && t * t > p2 + q2);
    let r1 = t * t - p1 - q1;
    let r2 = t * t - p2 - q2;
    assert(4 * p1 * q1 <= 4 * p2 * q2) by (nonlinear_arith)
        requires
            0 <= p1 <= p2,
            0 <= q1 <= q2,
    ;
    assert(r1 * r1 >= r2 * r2) by (nonlinear_arith)
        requires
            0 < r2 <= r1,
    ;
}

/// The floor roots witness the sum from below: `sqrt(p) + sqrt(q)` is not
/// below `isqrt(p) + isqrt(q)`.
proof fn lemma_sum_sqrt_lower(p: nat, q: nat, u: nat, w: nat)
    requires
        u * u <= p,
        w * w <= q,
    ensures
        !spec_sum_sqrt_lt(p, q, (u + w) as int),
{
    let t: int = (u + w) as int;
    if t > 0 && t * t > p + q {
        let r = t * t - p - q;
        assert(r <= 2 * u * w) by (nonlinear_arith)
            requires
                u * u <= p,
                w * w <= q,
                t == u + w,
                r == t * t - p - q,
        ;
        assert((2 * u * w) * (2 * u * w) <= 4 * p * q) by (nonlinear_arith)
            requires
                u * u <= p,
                w * w <= q,
                u >= 0,
                w >= 0,
        ;
        assert(r * r <= (2 * u * w) * (2 * u * w)) by (nonlinear_arith)
            requires
                0 < r <= 2 * u * w,
        ;
    }
}

/// The floor roots bound the sum from above: `sqrt(p) + sqrt(q)` stays
/// below `isqrt(p) + isqrt(q) + 2`.
proof fn lemma_sum_sqrt_upper(p: nat, q: nat, u: nat, w: nat)
    requires
        p < (u + 1) * (u + 1),
        q < (w + 1) * (w + 1),
    ensures
        spec_sum_sqrt_lt(p, q, (u + w + 2) as int),
{
    let t: int = (u + w + 2) as int;
    let a = (u + 1) as int;
    let b = (w + 1) as int;
    assert(t * t >= p + q + 2 * a * b + 2) by (nonlinear_arith)
        requires
            t == a + b,
            p < a * a,
            q < b * b,
    ;
    let r = t * t - p - q;
    assert(4 * p * q < (2 * a * b) * (2 * a * b)) by (nonlinear_arith)
        requires
            0 <= p,
            0 <= q,
            p < a * a,
            q < b * b,
            a >= 1,
            b >= 1,
    ;
    assert(r * r >= (2 * a * b + 2) * (2 * a * b + 2)) by (nonlinear_arith)
        requires
            r >= 2 * a * b + 2,
            a >= 1,
            b >= 1,
    ;
    assert((2 * a * b + 2) * (2 * a * b + 2) > (2 * a * b) * (2 * a * b)) by (nonlinear_arith)
        requires
            a >= 1,
            b >= 1,
    ;
}

/// The banded characterization pins the rounded value down: two values
/// whose bands hold the same sum are equal.
proof fn lemma_round_sum_unique(p: nat, q: nat, n1: nat, n2: nat)
    requires
        spec_sum_sqrt_lt(4 * p, 4 * q, (2 * (n1 as int) + 1) * 1_000_000),
        !spec_sum_sqrt_lt(4 * p, 4 * q, (2 * (n1 as int) - 1) * 1_000_000),
        spec_sum_sqrt_lt(4 * p, 4 * q, (2 * (n2 as int) + 1) * 1_000_000),
        !spec_sum_sqrt_lt(4 * p, 4 * q, (2 * (n2 as int) - 1) * 1_000_000),
    ensures
        n1 == n2,
{
    if n1 < n2 {
        lemma_sum_sqrt_lt_mono_t(
            4 * p,
            4 * q,
            (2 * (n1 as int) + 1) * 1_000_000,
            (2 * (n2 as int) - 1) * 1_000_000,
        );
    }
    if n2 < n1 {
        lemma_sum_sqrt_lt_mono_t(
            4 * p,
            4 * q,
            (2 * (n2 as int) + 1) * 1_000_000,
            (2 * (n1 as int) - 1) * 1_000_000,
        );
    }
}

/// The band of the floor-root construction holds the sum: the candidate
/// computed from `isqrt(4p)`, `isqrt(4q)` and one exact tie test satisfies
/// the rounded-value characterization.
proof fn lemma_round_sum_candidate(p: nat, q: nat)
    ensures
        ({
            let u = spec_isqrt(4 * p);
            let w = spec_isqrt(4 * q);
            let base = u + w + 1_000_000;
            let quo = base / 2_000_000;
            let rem = base % 2_000_000;
            let n: nat = if rem == 1_999_999 && !spec_sum_sqrt_lt(
                4 * p,
                4 * q,
                (u + w + 1) as int,
            ) {
                quo + 1
            } else {
                quo
            };
            spec_sum_sqrt_lt(4 * p, 4 * q, (2 * (n as int) + 1) * 1_000_000) && !spec_sum_sqrt_lt(
                4 * p,
                4 * q,
                (2 * (n as int) - 1) * 1_000_000,
            ) && n == spec_round_sum_sqrt(p, q)
        }),
{
    let p4 = 4 * p;
    let q4 = 4 * q;
    crate::math::lemma_isqrt_bounds(p4);
    crate::math::lemma_isqrt_bounds(q4);
    let u = spec_isqrt(p4);
    let w = spec_isqrt(q4);
    lemma_sum_sqrt_lower(p4, q4, u, w);
    lemma_sum_sqrt_upper(p4, q4, u, w);
    let base = u + w + 1_000_000;
    let quo = base / 2_000_000;
    let rem = base % 2_000_000;
    lemma_fundamental_div_mod(base as int, 2_000_000);
    vstd::arithmetic::div_mod::lemma_mod_bound(base as int, 2_000_000);
    let n: nat = if rem == 1_999_999 && !spec_sum_sqrt_lt(p4, q4, (u + w + 1) as int) {
        quo + 1
    } else {
        quo
    };
    if rem == 1_999_999 {
        assert((u + w + 1) as int == (2 * quo + 1) * 1_000_000);
        if !spec_sum_sqrt_lt(p4, q4, (u + w + 1) as int) {
            // n == quo + 1: the sum reaches the band's lower edge
            lemma_sum_sqrt_lt_mono_t(p4, q4, (u + w + 2) as int, (2 * (n as int) + 1) * 1_000_000);
        } else {
            // n == quo: the sum stays below the tie threshold
            assert(spec_sum_sqrt_lt(p4, q4, (2 * (n as int) + 1) * 1_000_000));
            if spec_sum_sqrt_lt(p4, q4, (2 * (n as int) - 1) * 1_000_000) {
                lemma_sum_sqrt_lt_mono_t(p4, q4, (2 * (n as int) - 1) * 1_000_000, (u + w) as int);
            }
        }
    } else {
        assert(rem <= 1_999_998);
        assert((2 * quo + 1) * 1_000_000 >= u + w + 2);
        lemma_sum_sqrt_lt_mono_t(p4, q4, (u + w + 2) as int, (2 * (n as int) + 1) * 1_000_000);
        if spec_sum_sqrt_lt(p4, q4, (2 * (n as int) - 1) * 1_000_000) {
            assert((2 * quo - 1) * 1_000_000 <= u + w);
            lemma_sum_sqrt_lt_mono_t(p4, q4, (2 * (n as int) - 1) * 1_000_000, (u + w) as int);
        }
    }
    assert(exists|m: nat|
        #![trigger spec_sum_sqrt_lt(4 * p, 4 * q, (2 * (m as int) + 1) * 1_000_000)]
        spec_sum_sqrt_lt(4 * p, 4 * q, (2 * (m as int) + 1) * 1_000_000) && !spec_sum_sqrt_lt(
            4 * p,
            4 * q,
            (2 * (m as int) - 1) * 1_000_000,
        )) by {
        assert(spec_sum_sqrt_lt(4 * p, 4 * q, (2 * (n as int) + 1) * 1_000_000)
            && !spec_sum_sqrt_lt(4 * p, 4 * q, (2 * (n as int) - 1) * 1_000_000));
    }
    lemma_round_sum_unique(p, q, n, spec_round_sum_sqrt(p, q));
}

/// Decide `sqrt(p) + sqrt(q) >= t` exactly on machine integers.
fn sum_sqrt_ge(p: u128, q: u128, t: u128) -> (b: bool)
    requires
        p <= 80_000_000_000_000_000_000_000,
        q <= 400_000_000_000_000,
        t <= 600_000_000_000,
    ensures
        b == !spec_sum_sqrt_lt(p as nat, q as nat, t as int),
{
    proof {
        assert((t as int) * (t as int) <= 600_000_000_000 * 600_000_000_000_int)
            by (nonlinear_arith)
            requires
                t <= 600_000_000_000,
        ;
    }
    let t2: u128 = t * t;
    if t2 <= p + q {
        return true;
    }
    let rest: u128 = t2 - p - q;
    proof {
        assert(t > 0);
        assert(4 * (p as int) * (q as int) <= 128_000_000_000_000_000_000_000_000_000_000_000_000int)
            by (nonlinear_arith)
            requires
                0 <= p <= 80_000_000_000_000_000_000_000,
                0 <= q <= 400_000_000_000_000,
        ;
    }
    let cross: u128 = 4 * p * q;
    if rest >= 18_446_744_073_709_551_616 {
        proof {
            assert((rest as int) * (rest as int)
                > 128_000_000_000_000_000_000_000_000_000_000_000_000int) by (nonlinear_arith)
                requires
                    rest >= 18_446_744_073_709_551_616,
            ;
            assert(spec_sum_sqrt_lt(p as nat, q as nat, t as int));
        }
        return false;
    }
    proof {
        assert((rest as int) * (rest as int) < 0x1_0000_0000_0000_0000_0000_0000_0000_0000int)
            by (nonlinear_arith)
            requires
                rest < 18_446_744_073_709_551_616,
        ;
    }
    let rest_sq: u128 = rest * rest;
    !(cross < rest_sq)
}

/// Compute the fragment count for a collision.
pub fn debris_count(energy_j: u128, mass_mg: u64) -> (n: u32)
    ensures
        n == spec_debris_count(energy_j as nat, mass_mg as nat),
        MIN_DEBRIS_PIECES <= n <= MAX_DEBRIS_PIECES,
{
    let p: u128 = 1000 * (mass_mg as u128);
    let q: u128 = if energy_j > 100_000_000_000_000 {
        100_000_000_000_000
    } else {
        energy_j
    };
    let u: u128 = isqrt_u128(4 * p);
    let w: u128 = isqrt_u128(4 * q);
    proof {
        assert(u <= 300_000_000_000) by (nonlinear_arith)
            requires
                (u as int) * (u as int) <= 4 * (p as int),
                p <= 1000 * 0xffff_ffff_ffff_ffff_u64 as int,
        ;
        assert(w <= 20_000_000) by (nonlinear_arith)
            requires
                (w as int) * (w as int) <= 4 * (q as int),
                q <= 100_000_000_000_000,
        ;
        lemma_round_sum_candidate(p as nat, q as nat);
    }
    let base: u128 = u + w + 1_000_000;
    let quo: u128 = base / 2_000_000;
    let rem: u128 = base % 2_000_000;
    let n_raw: u128 = if rem == 1_999_999 && sum_sqrt_ge(4 * p, 4 * q, u + w + 1) {
        quo + 1
    } else {
        quo
    };
    proof {
        assert(n_raw == spec_round_sum_sqrt(p as nat, q as nat));
    }
    if n_raw < 2 {
        2
    } else if n_raw > 50 {
        50
    } else {
        n_raw as u32
    }
}

/// The fragment count never decreases when the collision energy or the
/// combined mass grows, and always lies between 2 and 50.
pub proof fn lemma_debris_count_monotone(e1: nat, m1: nat, e2: nat, m2: nat)
    requires
        e1 <= e2,
        m1 <= m2,
    ensures
        spec_debris_count(e1, m1) <= spec_debris_count(e2, m2),
        2 <= spec_debris_count(e1, m1) <= 50,
{
    let q1: nat = if e1 > 100_000_000_000_000 {
        100_000_000_000_000
    } else {
        e1
    };
    let q2: nat = if e2 > 100_000_000_000_000 {
        100_000_000_000_000
    } else {
        e2
    };
    lemma_round_sum_candidate(1000 * m1, q1);
    lemma_round_sum_candidate(1000 * m2, q2);
    let n1 = spec_round_sum_sqrt(1000 * m1, q1);
    let n2 = spec_round_sum_sqrt(1000 * m2, q2);
    if n2 < n1 {
        lemma_sum_sqrt_lt_mono_rad(
            4 * (1000 * m1),
            4 * q1,
            4 * (1000 * m2),
            4 * q2,
            (2 * (n2 as int) + 1) * 1_000_000,
        );
        lemma_sum_sqrt_lt_mono_t(
            4 * (1000 * m1),
            4 * q1,
            (2 * (n2 as int) + 1) * 1_000_000,
            (2 * (n1 as int) - 1) * 1_000_000,
        );
    }
}

/// Mass of one fragment, in milligrams: a tenth of the combined mass,
/// split evenly over the fragments, rounded down.
pub open spec fn spec_fragment_mass_mg(total_mg: nat, count: nat) -> nat {
    total_mg / (10 * count)
}

/// Compute one fragment's mass from the combined parent mass and the
/// fragment count.
pub fn fragment_mass_mg(total_mg: u64, count: u32) -> (m: u64)
    requires
        1 <= count,
    ensures
        m == spec_fragment_mass_mg(total_mg as nat, count as nat),
{
    total_mg / (10 * (count as u64))
}

/// The fragments of one collision together carry a tenth of the combined
/// parent mass, short of it by less than one fragment count of milligrams:
/// `count · fragment_mass` never exceeds `total/10` and misses it by less
/// than `count`.
pub proof fn lemma_fragment_masses_sum(total_mg: nat, count: nat)
    requires
        1 <= count,
    ensures
        count * spec_fragment_mass_mg(total_mg, count) <= total_mg / 10,
        total_mg / 10 < count * spec_fragment_mass_mg(total_mg, count) + count,
{
    let f = total_mg / (10 * count);
    lemma_fundamental_div_mod(total_mg as int, 10 * count as int);
    let r = total_mg as int % (10 * count as int);
    assert(total_mg == (10 * count) * f + r);
    assert(0 <= r < 10 * count) by {
        vstd::arithmetic::div_mod::lemma_mod_bound(total_mg as int, 10 * count as int);
    }
    assert(count * f <= total_mg / 10 < count * f + count) by (nonlinear_arith)
        requires
            total_mg == (10 * count) * f + r,
            0 <= r < 10 * count,
            1 <= count,
            0 <= f,
            total_mg / 10 == total_mg as int / 10,
    ;
}

/// Collision energy in joules: half the combined mass times the squared
/// relative speed, in the kernel's fixed-point units (milligrams and
/// millimetres per second), so scaled by 2·10¹².
pub open spec fn spec_collision_energy_j(total_mg: nat, rel_velocity: Vec3) -> int {
    total_mg * spec_norm_sq(rel_velocity) / 2_000_000_000_000
}

/// Compute the energy released by a collision of two bodies with the given
/// masses and relative velocity.
pub fn collision_energy_j(m1_mg: u64, m2_mg: u64, rel_velocity: &Vec3) -> (e: u128)
    requires
        m1_mg <= MASS_LIMIT_MG,
        m2_mg <= MASS_LIMIT_MG,
        -2 * VEL_LIMIT_MM_S <= rel_velocity.x <= 2 * VEL_LIMIT_MM_S,
        -2 * VEL_LIMIT_MM_S <= rel_velocity.y <= 2 * VEL_LIMIT_MM_S,
        -2 * VEL_LIMIT_MM_S <= rel_velocity.z <= 2 * VEL_LIMIT_MM_S,
    ensures
        e == spec_collision_energy_j((m1_mg + m2_mg) as nat, *rel_velocity),
{
    let total: u64 = m1_mg + m2_mg;
    let v_sq: i128 = rel_velocity.norm_sq();
    proof {
        assert(0 <= spec_norm_sq(*rel_velocity) <= 3 * (2_000_000_000 * 2_000_000_000_int))
            by (nonlinear_arith)
            requires
                -2_000_000_000 <= rel_velocity.x <= 2_000_000_000,
                -2_000_000_000 <= rel_velocity.y <= 2_000_000_000,
                -2_000_000_000 <= rel_velocity.z <= 2_000_000_000,
        ;
    }
    let vsqu: u128 = v_sq as u128;
    proof {
        assert((total as u128) * vsqu <= 2_000_000_000_000_000 * (3 * (2_000_000_000
            * 2_000_000_000_int))) by (nonlinear_arith)
            requires
                0 <= total <= 2_000_000_000_000_000,
                0 <= vsqu <= 3 * (2_000_000_000 * 2_000_000_000_int),
        ;
    }
    let num: u128 = (total as u128) * vsqu;
    num / 2_000_000_000_000
}

} // verus!
