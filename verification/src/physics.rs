//! Two-body gravity integration in fixed point.
//!
//! Acceleration follows the inverse-square law `a = -GM / r² · r̂`, with
//! the magnitude computed in metres (the gravitational parameter is in
//! m³/s²) and the direction taken from the position vector — exactly the
//! standard two-body law. Two integrators advance a state: semi-implicit
//! Euler (the position step uses the updated velocity, which is materially
//! more stable for orbits than the explicit form) and classical
//! fourth-order Runge–Kutta with weights 1, 2, 2, 1 over 6.
//!
//! Every multiplication and division is integer arithmetic with a stated
//! rounding, so each step's result is pinned down exactly. A body within
//! one kilometre of the center is degenerate (the direction is undefined
//! at r ≈ 0): its update is skipped and its state left unchanged; nothing
//! ever divides by zero.

use vstd::prelude::*;
use vstd::arithmetic::div_mod::{lemma_div_is_ordered, lemma_div_is_ordered_by_denominator,
    lemma_div_multiples_vanish};

use crate::constants::GM_LIMIT;
use crate::bodies::{POS_LIMIT_MM, VEL_LIMIT_MM_S};
use crate::math::{Vec3, spec_in_bounds, spec_isqrt, spec_norm_sq};

verus! {

/// Largest physics timestep accepted, in milliseconds (1000 seconds).
pub const DT_LIMIT_MS: u64 = 1_000_000;

/// Largest acceleration component the law can produce for a
/// non-degenerate body, in mm/s².
pub const ACCEL_LIMIT_MM_S2: i64 = 1_000_000_000_000;

/// `a · b / d`, rounded toward zero (`b` and `d` positive): the scaling
/// step of every fixed-point product in the integrators.
pub open spec fn spec_scaled(a: int, b: int, d: int) -> int {
    if a >= 0 {
        (a * b) / d
    } else {
        -(((-a) * b) / d)
    }
}

/// Distance of a position from the center in whole metres.
pub open spec fn spec_radius_m(pos: Vec3) -> int {
    spec_isqrt(spec_norm_sq(pos) as nat) as int / 1000
}

/// Whether a position is too near the center for the acceleration
/// direction to mean anything: within one kilometre.
pub open spec fn spec_degenerate(pos: Vec3) -> bool {
    spec_radius_m(pos) < 1000
}

/// Gravitational acceleration at `pos` in mm/s²: magnitude `GM / r²`
/// (metres), direction opposite the position vector, each component
/// rounded toward zero; the zero vector for a degenerate position.
pub open spec fn spec_accel_mm_s2(pos: Vec3, gm_m3_s2: u64) -> Vec3 {
    if spec_degenerate(pos) {
        Vec3 { x: 0, y: 0, z: 0 }
    } else {
        let r_mm = spec_isqrt(spec_norm_sq(pos) as nat) as int;
        let r_m = r_mm / 1000;
        let mag = gm_m3_s2 * 1000 / (r_m * r_m);
        Vec3 {
            x: (-spec_scaled(pos.x as int, mag, r_mm)) as i64,
            y: (-spec_scaled(pos.y as int, mag, r_mm)) as i64,
            z: (-spec_scaled(pos.z as int, mag, r_mm)) as i64,
        }
    }
}

/// One vector scaled by `dt / d`, each component rounded toward zero.
pub open spec fn spec_vec_scaled(v: Vec3, dt: int, d: int) -> Vec3 {
    Vec3 {
        x: spec_scaled(v.x as int, dt, d) as i64,
        y: spec_scaled(v.y as int, dt, d) as i64,
        z: spec_scaled(v.z as int, dt, d) as i64,
    }
}

/// Component-wise vector sum (on values small enough not to wrap).
pub open spec fn spec_vec_add(a: Vec3, b: Vec3) -> Vec3 {
    Vec3 { x: (a.x + b.x) as i64, y: (a.y + b.y) as i64, z: (a.z + b.z) as i64 }
}

/// The Runge–Kutta weighted sum `k1 + 2 k2 + 2 k3 + k4`.
pub open spec fn spec_vec_combo(k1: Vec3, k2: Vec3, k3: Vec3, k4: Vec3) -> Vec3 {
    Vec3 {
        x: (k1.x + 2 * k2.x + 2 * k3.x + k4.x) as i64,
        y: (k1.y + 2 * k2.y + 2 * k3.y + k4.y) as i64,
        z: (k1.z + 2 * k2.z + 2 * k3.z + k4.z) as i64,
    }
}

/// One semi-implicit Euler step: `v' = v + a·dt`, `x' = x + v'·dt` — the
/// position step uses the updated velocity. A degenerate state is returned
/// unchanged.
pub open spec fn spec_euler_step(pos: Vec3, vel: Vec3, gm_m3_s2: u64, dt_ms: u64) -> (Vec3, Vec3) {
    if spec_degenerate(pos) {
        (pos, vel)
    } else {
        let acc = spec_accel_mm_s2(pos, gm_m3_s2);
        let v1 = spec_vec_add(vel, spec_vec_scaled(acc, dt_ms as int, 1000));
        let x1 = spec_vec_add(pos, spec_vec_scaled(v1, dt_ms as int, 1000));
        (x1, v1)
    }
}

/// One classical RK4 step: the acceleration is evaluated at the current
/// state, two midpoint states and the endpoint state, and combined with
/// weights 1, 2, 2, 1 over 6. A degenerate state is returned unchanged;
/// a degenerate intermediate position contributes zero acceleration.
pub open spec fn spec_rk4_step(pos: Vec3, vel: Vec3, gm_m3_s2: u64, dt_ms: u64) -> (Vec3, Vec3) {
    if spec_degenerate(pos) {
        (pos, vel)
    } else {
        let k1v = spec_accel_mm_s2(pos, gm_m3_s2);
        let k1p = vel;
        let k2v = spec_accel_mm_s2(
            spec_vec_add(pos, spec_vec_scaled(k1p, dt_ms as int, 2000)),
            gm_m3_s2,
        );
        let k2p = spec_vec_add(vel, spec_vec_scaled(k1v, dt_ms as int, 2000));
        let k3v = spec_accel_mm_s2(
            spec_vec_add(pos, spec_vec_scaled(k2p, dt_ms as int, 2000)),
            gm_m3_s2,
        );
        let k3p = spec_vec_add(vel, spec_vec_scaled(k2v, dt_ms as int, 2000));
        let k4v = spec_accel_mm_s2(
            spec_vec_add(pos, spec_vec_scaled(k3p, dt_ms as int, 1000)),
            gm_m3_s2,
        );
        let k4p = spec_vec_add(vel, spec_vec_scaled(k3v, dt_ms as int, 1000));
        let v1 = spec_vec_add(
            vel,
            spec_vec_scaled(spec_vec_combo(k1v, k2v, k3v, k4v), dt_ms as int, 6000),
        );
        let x1 = spec_vec_add(
            pos,
            spec_vec_scaled(spec_vec_combo(k1p, k2p, k3p, k4p), dt_ms as int, 6000),
        );
        (x1, v1)
    }
}

/// Scaling by `dt / d` with `dt` at most a million and `d` at least a
/// thousand grows no component beyond a thousand times its bound, and
/// beyond five hundred times for `d` at least two thousand.
pub proof fn lemma_scaled_dt_bound(a: int, dt: int, d: int, am: int)
    requires
        1000 <= d,
        0 <= dt <= 1_000_000,
        0 <= am,
        -am <= a <= am,
    ensures
        -(am * 1000) <= spec_scaled(a, dt, d) <= am * 1000,
        d >= 2000 ==> -(am * 500) <= spec_scaled(a, dt, d) <= am * 500,
{
    let m = if a >= 0 {
        a
    } else {
        -a
    };
    assert(0 <= m * dt <= am * 1_000_000) by (nonlinear_arith)
        requires
            0 <= m <= am,
            0 <= dt <= 1_000_000,
    ;
    lemma_div_is_ordered(m * dt, am * 1_000_000, d);
    lemma_div_is_ordered_by_denominator(am * 1_000_000, 1000, d);
    assert(am * 1_000_000 == 1000 * (am * 1000)) by (nonlinear_arith);
    lemma_div_multiples_vanish(am * 1000, 1000);
    assert(0 <= (m * dt) / d) by {
        vstd::arithmetic::div_mod::lemma_div_pos_is_pos(m * dt, d);
    }
    if d >= 2000 {
        lemma_div_is_ordered_by_denominator(am * 1_000_000, 2000, d);
        assert(am * 1_000_000 == 2000 * (am * 500)) by (nonlinear_arith);
        lemma_div_multiples_vanish(am * 500, 2000);
    }
}

/// A fraction of a magnitude: scaling `a` by `b / d` with `|a| ≤ d` stays
/// within `b`.
pub proof fn lemma_scaled_frac_le(a: int, b: int, d: int)
    requires
        1 <= d,
        0 <= b,
        -d <= a <= d,
    ensures
        -b <= spec_scaled(a, b, d) <= b,
{
    let m = if a >= 0 {
        a
    } else {
        -a
    };
    assert(0 <= m * b <= d * b) by (nonlinear_arith)
        requires
            0 <= m <= d,
            0 <= b,
    ;
    lemma_div_is_ordered(m * b, d * b, d);
    lemma_div_multiples_vanish(b, d);
    assert(0 <= (m * b) / d) by {
        vstd::arithmetic::div_mod::lemma_div_pos_is_pos(m * b, d);
    }
}

/// Scale a coordinate: `a · b / d`, rounded toward zero.
pub(crate) fn scaled_i64(a: i64, b: u64, d: u64) -> (r: i64)
    requires
        1 <= d,
        -2_000_000_000_000_000_000 <= a <= 2_000_000_000_000_000_000,
        b <= 2_000_000_000_000_000_000,
        -0x7fff_ffff_ffff_ffff <= spec_scaled(a as int, b as int, d as int)
            <= 0x7fff_ffff_ffff_ffff,
    ensures
        r == spec_scaled(a as int, b as int, d as int),
{
    if a >= 0 {
        proof {
            assert((a as u128) * (b as u128) <= 2_000_000_000_000_000_000 * (
            2_000_000_000_000_000_000_int)) by (nonlinear_arith)
                requires
                    0 <= a <= 2_000_000_000_000_000_000,
                    0 <= b <= 2_000_000_000_000_000_000,
            ;
        }
        let m: u128 = (a as u128) * (b as u128) / (d as u128);
        m as i64
    } else {
        let neg: u64 = (-a) as u64;
        proof {
            assert((neg as u128) * (b as u128) <= 2_000_000_000_000_000_000 * (
            2_000_000_000_000_000_000_int)) by (nonlinear_arith)
                requires
                    0 <= neg <= 2_000_000_000_000_000_000,
                    0 <= b <= 2_000_000_000_000_000_000,
            ;
        }
        let m: u128 = (neg as u128) * (b as u128) / (d as u128);
        -(m as i64)
    }
}

/// Scale a whole vector by `dt / d`, rounding each component toward zero.
fn vec_scaled(v: &Vec3, dt_ms: u64, d: u64, am: Ghost<int>) -> (r: Vec3)
    requires
        1000 <= d <= 6000,
        dt_ms <= DT_LIMIT_MS,
        0 <= am@ <= 8_000_000_000_000_000,
        -am@ <= v.x <= am@,
        -am@ <= v.y <= am@,
        -am@ <= v.z <= am@,
    ensures
        r == spec_vec_scaled(*v, dt_ms as int, d as int),
        -(am@ * 1000) <= r.x <= am@ * 1000,
        -(am@ * 1000) <= r.y <= am@ * 1000,
        -(am@ * 1000) <= r.z <= am@ * 1000,
        d >= 2000 ==> -(am@ * 500) <= r.x <= am@ * 500,
        d >= 2000 ==> -(am@ * 500) <= r.y <= am@ * 500,
        d >= 2000 ==> -(am@ * 500) <= r.z <= am@ * 500,
{
    proof {
        lemma_scaled_dt_bound(v.x as int, dt_ms as int, d as int, am@);
        lemma_scaled_dt_bound(v.y as int, dt_ms as int, d as int, am@);
        lemma_scaled_dt_bound(v.z as int, dt_ms as int, d as int, am@);
        assert(am@ * 1000 <= 8_000_000_000_000_000 * 1000int) by (nonlinear_arith)
            requires
                0 <= am@ <= 8_000_000_000_000_000,
        ;
    }
    let x: i64 = scaled_i64(v.x, dt_ms, d);
    let y: i64 = scaled_i64(v.y, dt_ms, d);
    let z: i64 = scaled_i64(v.z, dt_ms, d);
    Vec3 { x, y, z }
}

/// Compute the gravitational acceleration at `pos`, in mm/s².
pub fn accel_mm_s2(pos: &Vec3, gm_m3_s2: u64) -> (a: Vec3)
    requires
        spec_in_bounds(*pos),
        gm_m3_s2 <= GM_LIMIT,
    ensures
        a == spec_accel_mm_s2(*pos, gm_m3_s2),
        -ACCEL_LIMIT_MM_S2 <= a.x <= ACCEL_LIMIT_MM_S2,
        -ACCEL_LIMIT_MM_S2 <= a.y <= ACCEL_LIMIT_MM_S2,
        -ACCEL_LIMIT_MM_S2 <= a.z <= ACCEL_LIMIT_MM_S2,
{
    let r_mm: u64 = pos.norm();
    let r_m: u64 = r_mm / 1000;
    if r_m < 1000 {
        return Vec3 { x: 0, y: 0, z: 0 };
    }
    proof {
        assert((r_m as u128) * (r_m as u128) >= 1_000_000 && (r_m as u128) * (r_m as u128)
            <= 0xffff_ffff_ffff_ffff * 0xffff_ffff_ffff_ffff_int) by (nonlinear_arith)
            requires
                1000 <= r_m <= 0xffff_ffff_ffff_ffff_u64,
        ;
    }
    let den: u128 = (r_m as u128) * (r_m as u128);
    let num: u128 = (gm_m3_s2 as u128) * 1000;
    proof {
        assert(num / den <= 1_000_000_000_000) by (nonlinear_arith)
            requires
                den >= 1_000_000,
                0 <= num <= 1_000_000_000_000_000_000,
        ;
    }
    let mag: u64 = (num / den) as u64;
    proof {
        lemma_axis_within_radius(*pos);
        lemma_scaled_frac_le(pos.x as int, mag as int, r_mm as int);
        lemma_scaled_frac_le(pos.y as int, mag as int, r_mm as int);
        lemma_scaled_frac_le(pos.z as int, mag as int, r_mm as int);
    }
    let ax: i64 = scaled_i64(pos.x, mag, r_mm);
    let ay: i64 = scaled_i64(pos.y, mag, r_mm);
    let az: i64 = scaled_i64(pos.z, mag, r_mm);
    Vec3 { x: -ax, y: -ay, z: -az }
}

/// No coordinate of a vector exceeds the vector's rounded-down length:
/// the component squared is at most the squared norm.
pub proof fn lemma_axis_within_radius(pos: Vec3)
    ensures
        -(spec_isqrt(spec_norm_sq(pos) as nat) as int) <= pos.x <= spec_isqrt(
            spec_norm_sq(pos) as nat,
        ) as int,
        -(spec_isqrt(spec_norm_sq(pos) as nat) as int) <= pos.y <= spec_isqrt(
            spec_norm_sq(pos) as nat,
        ) as int,
        -(spec_isqrt(spec_norm_sq(pos) as nat) as int) <= pos.z <= spec_isqrt(
            spec_norm_sq(pos) as nat,
        ) as int,
{
    assert(pos.x * pos.x + pos.y * pos.y + pos.z * pos.z >= 0) by (nonlinear_arith);
    let n = spec_norm_sq(pos) as nat;
    assert(n == pos.x * pos.x + pos.y * pos.y + pos.z * pos.z);
    crate::math::lemma_isqrt_bounds(n);
    let r = spec_isqrt(n) as int;
    assert(-r <= pos.x <= r && -r <= pos.y <= r && -r <= pos.z <= r) by (nonlinear_arith)
        requires
            r >= 0,
            n == pos.x * pos.x + pos.y * pos.y + pos.z * pos.z,
            n < (r + 1) * (r + 1),
    ;
}

/// Semi-implicit Euler integrator.
pub struct EulerIntegrator;

impl EulerIntegrator {
    /// Advance one state by one Euler step; a degenerate state comes back
    /// unchanged.
    pub fn integrate(position: Vec3, velocity: Vec3, dt_ms: u64, gm_m3_s2: u64) -> (r: (Vec3, Vec3))
        requires
            -POS_LIMIT_MM <= position.x <= POS_LIMIT_MM,
            -POS_LIMIT_MM <= position.y <= POS_LIMIT_MM,
            -POS_LIMIT_MM <= position.z <= POS_LIMIT_MM,
            -VEL_LIMIT_MM_S <= velocity.x <= VEL_LIMIT_MM_S,
            -VEL_LIMIT_MM_S <= velocity.y <= VEL_LIMIT_MM_S,
            -VEL_LIMIT_MM_S <= velocity.z <= VEL_LIMIT_MM_S,
            dt_ms <= DT_LIMIT_MS,
            gm_m3_s2 <= GM_LIMIT,
        ensures
            r == spec_euler_step(position, velocity, gm_m3_s2, dt_ms),
    {
        let r_mm: u64 = position.norm();
        let r_m: u64 = r_mm / 1000;
        if r_m < 1000 {
            return (position, velocity);
        }
        let acc = accel_mm_s2(&position, gm_m3_s2);
        let dv = vec_scaled(&acc, dt_ms, 1000, Ghost(ACCEL_LIMIT_MM_S2 as int));
        let v1 = Vec3 { x: velocity.x + dv.x, y: velocity.y + dv.y, z: velocity.z + dv.z };
        let dx = vec_scaled(&v1, dt_ms, 1000, Ghost(1_001_000_000_000_000int));
        let x1 = Vec3 { x: position.x + dx.x, y: position.y + dx.y, z: position.z + dx.z };
        (x1, v1)
    }
}

/// Classical fourth-order Runge–Kutta integrator: strictly more accurate
/// than Euler, same call contract.
pub struct RK4Integrator;

impl RK4Integrator {
    /// Advance one state by one RK4 step; a degenerate state comes back
    /// unchanged.
    pub fn integrate(position: Vec3, velocity: Vec3, dt_ms: u64, gm_m3_s2: u64) -> (r: (Vec3, Vec3))
        requires
            -POS_LIMIT_MM <= position.x <= POS_LIMIT_MM,
            -POS_LIMIT_MM <= position.y <= POS_LIMIT_MM,
            -POS_LIMIT_MM <= position.z <= POS_LIMIT_MM,
            -VEL_LIMIT_MM_S <= velocity.x <= VEL_LIMIT_MM_S,
            -VEL_LIMIT_MM_S <= velocity.y <= VEL_LIMIT_MM_S,
            -VEL_LIMIT_MM_S <= velocity.z <= VEL_LIMIT_MM_S,
            dt_ms <= DT_LIMIT_MS,
            gm_m3_s2 <= GM_LIMIT,
        ensures
            r == spec_rk4_step(position, velocity, gm_m3_s2, dt_ms),
    {
        let r_mm: u64 = position.norm();
        let r_m: u64 = r_mm / 1000;
        if r_m < 1000 {
            return (position, velocity);
        }
        let k1v = accel_mm_s2(&position, gm_m3_s2);
        let k1p = velocity;

        let s1 = vec_scaled(&k1p, dt_ms, 2000, Ghost(VEL_LIMIT_MM_S as int));
        let mid1 = Vec3 { x: position.x + s1.x, y: position.y + s1.y, z: position.z + s1.z };
        let k2v = accel_mm_s2(&mid1, gm_m3_s2);
        let t1 = vec_scaled(&k1v, dt_ms, 2000, Ghost(ACCEL_LIMIT_MM_S2 as int));
        let k2p = Vec3 { x: velocity.x + t1.x, y: velocity.y + t1.y, z: velocity.z + t1.z };

        let s2 = vec_scaled(&k2p, dt_ms, 2000, Ghost(501_000_000_000_000int));
        let mid2 = Vec3 { x: position.x + s2.x, y: position.y + s2.y, z: position.z + s2.z };
        let k3v = accel_mm_s2(&mid2, gm_m3_s2);
        let t2 = vec_scaled(&k2v, dt_ms, 2000, Ghost(ACCEL_LIMIT_MM_S2 as int));
        let k3p = Vec3 { x: velocity.x + t2.x, y: velocity.y + t2.y, z: velocity.z + t2.z };

        let s3 = vec_scaled(&k3p, dt_ms, 1000, Ghost(501_000_000_000_000int));
        let end = Vec3 { x: position.x + s3.x, y: position.y + s3.y, z: position.z + s3.z };
        let k4v = accel_mm_s2(&end, gm_m3_s2);
        let t3 = vec_scaled(&k3v, dt_ms, 1000, Ghost(ACCEL_LIMIT_MM_S2 as int));
        let k4p = Vec3 { x: velocity.x + t3.x, y: velocity.y + t3.y, z: velocity.z + t3.z };

        let combo_v = Vec3 {
            x: k1v.x + 2 * k2v.x + 2 * k3v.x + k4v.x,
            y: k1v.y + 2 * k2v.y + 2 * k3v.y + k4v.y,
            z: k1v.z + 2 * k2v.z + 2 * k3v.z + k4v.z,
        };
        let combo_p = Vec3 {
            x: k1p.x + 2 * k2p.x + 2 * k3p.x + k4p.x,
            y: k1p.y + 2 * k2p.y + 2 * k3p.y + k4p.y,
            z: k1p.z + 2 * k2p.z + 2 * k3p.z + k4p.z,
        };
        let dv = vec_scaled(&combo_v, dt_ms, 6000, Ghost(6_000_000_000_000int));
        let v1 = Vec3 { x: velocity.x + dv.x, y: velocity.y + dv.y, z: velocity.z + dv.z };
        let dx = vec_scaled(&combo_p, dt_ms, 6000, Ghost(4_006_000_000_000_000int));
        let x1 = Vec3 { x: position.x + dx.x, y: position.y + dx.y, z: position.z + dx.z };
        (x1, v1)
    }
}

/// Which integrator advances the simulation, and the timestep policy.
pub struct IntegratorConfig {
    /// Use RK4 instead of semi-implicit Euler.
    pub use_rk4: bool,
    /// Whether the timestep adapts to the simulation speed.
    pub adaptive_timestep: bool,
    /// Smallest timestep, in milliseconds.
    pub min_timestep_ms: u64,
    /// Largest timestep, in milliseconds.
    pub max_timestep_ms: u64,
}

impl Default for IntegratorConfig {
    /// Euler by default, fixed timestep between ten milliseconds and one
    /// second.
    fn default() -> (c: IntegratorConfig)
        ensures
            !c.use_rk4,
            !c.adaptive_timestep,
            c.min_timestep_ms == 10,
            c.max_timestep_ms == 1000,
    {
        IntegratorConfig {
            use_rk4: false,
            adaptive_timestep: false,
            min_timestep_ms: 10,
            max_timestep_ms: 1000,
        }
    }
}

} // verus!
