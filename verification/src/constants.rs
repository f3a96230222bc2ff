//! Physical constants of the central body, and the derived velocities,
//! in fixed-point units.
//!
//! The gravitational parameter is carried in m³/s² as an exact integer;
//! velocities come out in millimetres per second, accelerations in
//! micrometres per second squared, each the floor of the real value.

use vstd::prelude::*;

use crate::math::{isqrt_u128, spec_isqrt};

verus! {

/// Largest gravitational parameter (m³/s²) the kernel accepts; Earth's is
/// well below it.
pub const GM_LIMIT: u64 = 1_000_000_000_000_000;

/// Physical constants for the simulated central body.
pub struct Constants {
    /// Mass of the central body in kilograms, divided by 10^18 (Earth:
    /// 5,972,000 means 5.972e24 kg).
    pub body_mass_e18_kg: u64,
    /// Gravitational parameter GM in m³/s².
    pub gravitational_parameter: u64,
    /// Radius of the central body in kilometres.
    pub body_radius_km: u64,
    /// Radius of the central body in metres.
    pub body_radius_m: u64,
}

impl Default for Constants {
    /// Earth's constants.
    fn default() -> (c: Constants)
        ensures
            c.gravitational_parameter == 398_600_441_800_000,
            c.body_radius_km == 6_371,
            c.body_radius_m == 6_371_000,
            c.body_mass_e18_kg == 5_972_000,
            c.gravitational_parameter <= GM_LIMIT,
    {
        Constants {
            body_mass_e18_kg: 5_972_000,
            gravitational_parameter: 398_600_441_800_000,
            body_radius_km: 6_371,
            body_radius_m: 6_371_000,
        }
    }
}

impl Constants {
    /// Gravitational acceleration at distance `r_km` from the center, in
    /// micrometres per second squared: the floor of `GM / r²` scaled by
    /// 10^6.
    pub fn gravity_acceleration_um_s2(&self, r_km: u64) -> (a: u64)
        requires
            1 <= r_km <= 1_000_000_000,
            self.gravitational_parameter <= GM_LIMIT,
        ensures
            a == self.gravitational_parameter * 1_000_000 / ((r_km * 1000) * (r_km * 1000)),
    {
        let r_m: u64 = r_km * 1000;
        let num: u128 = (self.gravitational_parameter as u128) * 1_000_000;
        proof {
            assert((r_m as int) * (r_m as int) >= 1_000_000 && (r_m as int) * (r_m as int)
                <= 1_000_000_000_000 * 1_000_000_000_000_int) by (nonlinear_arith)
                requires
                    1000 <= r_m <= 1_000_000_000_000,
            ;
        }
        let den: u128 = (r_m as u128) * (r_m as u128);
        proof {
            assert(num / den <= 1_000_000_000_000_000) by (nonlinear_arith)
                requires
                    den >= 1_000_000,
                    0 <= num <= 1_000_000_000_000_000 * 1_000_000_int,
            ;
        }
        (num / den) as u64
    }

    /// Orbital speed of a circular orbit `altitude_km` above the surface,
    /// in millimetres per second: the floor of `sqrt(GM / r)` scaled by
    /// 10^3.
    pub fn circular_velocity_mm_s(&self, altitude_km: u64) -> (v: u64)
        requires
            self.body_radius_km + altitude_km <= 1_000_000_000,
            self.body_radius_km + altitude_km >= 1,
            self.gravitational_parameter <= GM_LIMIT,
        ensures
            v == spec_isqrt(
                (self.gravitational_parameter * 1_000_000 / ((self.body_radius_km + altitude_km)
                    * 1000)) as nat,
            ),
    {
        let r_m: u64 = (self.body_radius_km + altitude_km) * 1000;
        let num: u128 = (self.gravitational_parameter as u128) * 1_000_000;
        let per_r: u128 = num / (r_m as u128);
        let root: u128 = isqrt_u128(per_r);
        proof {
            assert(per_r <= num);
            assert(root * root <= per_r);
            assert(root <= 0xffff_ffff_ffff_ffff) by (nonlinear_arith)
                requires
                    root * root <= per_r,
                    per_r <= 1_000_000_000_000_000 * 1_000_000_int,
            ;
        }
        root as u64
    }

    /// Escape speed at distance `r_km` from the center, in millimetres per
    /// second: the floor of `sqrt(2 GM / r)` scaled by 10^3.
    pub fn escape_velocity_mm_s(&self, r_km: u64) -> (v: u64)
        requires
            1 <= r_km <= 1_000_000_000,
            self.gravitational_parameter <= GM_LIMIT,
        ensures
            v == spec_isqrt((2 * self.gravitational_parameter * 1_000_000 / (r_km * 1000)) as nat),
    {
        let r_m: u64 = r_km * 1000;
        let num: u128 = 2 * (self.gravitational_parameter as u128) * 1_000_000;
        let per_r: u128 = num / (r_m as u128);
        let root: u128 = isqrt_u128(per_r);
        proof {
            assert(per_r <= num);
            assert(root * root <= per_r);
            assert(root <= 0xffff_ffff_ffff_ffff) by (nonlinear_arith)
                requires
                    root * root <= per_r,
                    per_r <= 2 * 1_000_000_000_000_000 * 1_000_000_int,
            ;
        }
        root as u64
    }
}

} // verus!
