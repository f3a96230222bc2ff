//! Per-body state: orbital state vectors, static physical properties, and
//! the debris lineage tag.
//!
//! Positions are millimetres from the central body's center, velocities
//! millimetres per second, masses milligrams, times milliseconds. Energies
//! come out in joules, each the floor of the real value.

use vstd::prelude::*;

use crate::math::{Vec3, icbrt_u64, spec_icbrt, spec_isqrt, spec_norm_sq};

verus! {

/// Largest position coordinate magnitude a valid body may have
/// (millimetres; one million kilometres).
pub const POS_LIMIT_MM: i64 = 1_000_000_000_000_000;

/// Largest velocity coordinate magnitude a valid body may have
/// (millimetres per second; one thousand kilometres per second).
pub const VEL_LIMIT_MM_S: i64 = 1_000_000_000;

/// Largest mass a valid body may have (milligrams; one million tonnes).
pub const MASS_LIMIT_MG: u64 = 1_000_000_000_000_000;

/// Orbital state of one body.
#[derive(Clone, Copy, PartialEq, Eq, Structural, Debug)]
pub struct OrbitalState {
    /// Position in millimetres from the central body's center.
    pub position: Vec3,
    /// Velocity in millimetres per second.
    pub velocity: Vec3,
    /// Mass in milligrams.
    pub mass_mg: u64,
}

/// Kinetic energy in joules of a state: the floor of the real
/// `m v² / 2` in the kernel's fixed-point units.
pub open spec fn spec_kinetic_energy_j(s: OrbitalState) -> int {
    s.mass_mg * spec_norm_sq(s.velocity) / 2_000_000_000_000
}

/// Gravitational potential energy in joules of a state: `-GM m / r`
/// rounded toward zero, with the radius in whole metres; zero for a body
/// at the center.
pub open spec fn spec_potential_energy_j(s: OrbitalState, gm_m3_s2: u64) -> int {
    let r_m = spec_isqrt(spec_norm_sq(s.position) as nat) / 1000;
    if r_m == 0 {
        0
    } else {
        -((gm_m3_s2 * s.mass_mg / 1_000_000) / (r_m as int))
    }
}

/// Whether an orbital state lies within the magnitudes the kernel's
/// arithmetic accepts.
pub open spec fn spec_state_valid(s: OrbitalState) -> bool {
    &&& -POS_LIMIT_MM <= s.position.x <= POS_LIMIT_MM
    &&& -POS_LIMIT_MM <= s.position.y <= POS_LIMIT_MM
    &&& -POS_LIMIT_MM <= s.position.z <= POS_LIMIT_MM
    &&& -VEL_LIMIT_MM_S <= s.velocity.x <= VEL_LIMIT_MM_S
    &&& -VEL_LIMIT_MM_S <= s.velocity.y <= VEL_LIMIT_MM_S
    &&& -VEL_LIMIT_MM_S <= s.velocity.z <= VEL_LIMIT_MM_S
    &&& s.mass_mg <= MASS_LIMIT_MG
}

impl OrbitalState {
    pub fn new(position: Vec3, velocity: Vec3, mass_mg: u64) -> (s: OrbitalState)
        ensures
            s == (OrbitalState { position, velocity, mass_mg }),
    {
        OrbitalState { position, velocity, mass_mg }
    }

    /// Whether this state lies within the magnitudes the kernel accepts.
    pub fn is_valid(&self) -> (b: bool)
        ensures
            b == spec_state_valid(*self),
    {
        -POS_LIMIT_MM <= self.position.x && self.position.x <= POS_LIMIT_MM && -POS_LIMIT_MM
            <= self.position.y && self.position.y <= POS_LIMIT_MM && -POS_LIMIT_MM
            <= self.position.z && self.position.z <= POS_LIMIT_MM && -VEL_LIMIT_MM_S
            <= self.velocity.x && self.velocity.x <= VEL_LIMIT_MM_S && -VEL_LIMIT_MM_S
            <= self.velocity.y && self.velocity.y <= VEL_LIMIT_MM_S && -VEL_LIMIT_MM_S
            <= self.velocity.z && self.velocity.z <= VEL_LIMIT_MM_S && self.mass_mg
            <= MASS_LIMIT_MG
    }

    /// Distance from the central body's center, in millimetres (the floor
    /// of the real length of the position vector).
    pub fn radius_mm(&self) -> (r: u64)
        requires
            spec_state_valid(*self),
        ensures
            r == spec_isqrt(spec_norm_sq(self.position) as nat),
    {
        self.position.norm()
    }

    /// Orbital speed in millimetres per second (the floor of the real
    /// length of the velocity vector).
    pub fn speed_mm_s(&self) -> (v: u64)
        requires
            spec_state_valid(*self),
        ensures
            v == spec_isqrt(spec_norm_sq(self.velocity) as nat),
    {
        self.velocity.norm()
    }

    /// Kinetic energy in joules: the floor of `m · v² / 2` with the mass
    /// in milligrams and the squared speed in mm²/s², so scaled by 2·10¹².
    pub fn kinetic_energy_j(&self) -> (e: u128)
        requires
            spec_state_valid(*self),
        ensures
            e == spec_kinetic_energy_j(*self),
    {
        let v_sq: i128 = self.velocity.norm_sq();
        proof {
            assert(spec_norm_sq(self.velocity) <= 3 * (1_000_000_000 * 1_000_000_000_int))
                by (nonlinear_arith)
                requires
                    -1_000_000_000 <= self.velocity.x <= 1_000_000_000,
                    -1_000_000_000 <= self.velocity.y <= 1_000_000_000,
                    -1_000_000_000 <= self.velocity.z <= 1_000_000_000,
            ;
        }
        let vsqu: u128 = v_sq as u128;
        proof {
            assert((self.mass_mg as u128) * vsqu <= 1_000_000_000_000_000 * (3 * (
            1_000_000_000 * 1_000_000_000_int))) by (nonlinear_arith)
                requires
                    0 <= self.mass_mg <= 1_000_000_000_000_000,
                    0 <= vsqu <= 3 * (1_000_000_000 * 1_000_000_000_int),
            ;
        }
        let num: u128 = (self.mass_mg as u128) * vsqu;
        num / 2_000_000_000_000
    }

    /// Gravitational potential energy in joules: `-GM·m / r`, rounded
    /// toward zero, with the radius taken in whole metres. Zero when the
    /// body sits at the center (degenerate, handled by the caller).
    pub fn potential_energy_j(&self, gm_m3_s2: u64) -> (e: i128)
        requires
            spec_state_valid(*self),
        ensures
            e == spec_potential_energy_j(*self, gm_m3_s2),
            e <= 0,
            // never below -(u64::MAX * MASS_LIMIT_MG / 10^6) joules, so a
            // sum with the kinetic term cannot wrap
            e >= -18_446_744_073_709_551_615_000_000_000,
    {
        let r_mm: u64 = self.position.norm();
        let r_m: u64 = r_mm / 1000;
        if r_m == 0 {
            return 0;
        }
        proof {
            assert((gm_m3_s2 as int) * (self.mass_mg as int) <= 0xffff_ffff_ffff_ffff * (
            1_000_000_000_000_000_int)) by (nonlinear_arith)
                requires
                    0 <= gm_m3_s2 <= 0xffff_ffff_ffff_ffff,
                    0 <= self.mass_mg <= 1_000_000_000_000_000,
            ;
        }
        let num: u128 = (gm_m3_s2 as u128) * (self.mass_mg as u128) / 1_000_000;
        let q: u128 = num / (r_m as u128);
        proof {
            assert(q <= num) by (nonlinear_arith)
                requires
                    r_m >= 1,
                    num >= 0,
                    q == (num as int) / (r_m as int),
            ;
        }
        -(q as i128)
    }

    /// Total mechanical energy in joules: kinetic plus potential.
    pub fn total_energy_j(&self, gm_m3_s2: u64) -> (e: i128)
        requires
            spec_state_valid(*self),
        ensures
            e == spec_kinetic_energy_j(*self) + spec_potential_energy_j(*self, gm_m3_s2),
    {
        let ke: u128 = self.kinetic_energy_j();
        let pe: i128 = self.potential_energy_j(gm_m3_s2);
        proof {
            assert(0 <= spec_norm_sq(self.velocity) <= 3 * (1_000_000_000
                * 1_000_000_000_int)) by (nonlinear_arith)
                requires
                    -1_000_000_000 <= self.velocity.x <= 1_000_000_000,
                    -1_000_000_000 <= self.velocity.y <= 1_000_000_000,
                    -1_000_000_000 <= self.velocity.z <= 1_000_000_000,
            ;
            assert(self.mass_mg * spec_norm_sq(self.velocity) <= 1_000_000_000_000_000 * (3 * (
            1_000_000_000 * 1_000_000_000_int))) by (nonlinear_arith)
                requires
                    0 <= self.mass_mg <= 1_000_000_000_000_000,
                    0 <= spec_norm_sq(self.velocity) <= 3 * (1_000_000_000
                        * 1_000_000_000_int),
            ;
        }
        (ke as i128) + pe
    }
}

/// Static physical properties of one body.
#[derive(Clone, Copy, PartialEq, Eq, Structural, Debug)]
pub struct PhysicsObject {
    /// Cross-sectional area for drag, in square centimetres.
    pub cross_section_cm2: u64,
    /// Drag coefficient in thousandths (2200 means 2.2).
    pub drag_coefficient_milli: u64,
    /// Radius used for collision detection, in millimetres.
    pub collision_radius_mm: u64,
}

impl PhysicsObject {
    pub fn new(cross_section_cm2: u64, drag_coefficient_milli: u64, collision_radius_mm: u64) -> (o:
        PhysicsObject)
        ensures
            o == (PhysicsObject { cross_section_cm2, drag_coefficient_milli, collision_radius_mm }),
    {
        PhysicsObject { cross_section_cm2, drag_coefficient_milli, collision_radius_mm }
    }

    /// Properties of a typical satellite of the given mass: a crude
    /// mass-to-size relationship giving radius `(m_kg/1000)^(1/3)` metres —
    /// exactly the cube root of the mass in milligrams, in millimetres —
    /// a circular cross section of that radius, and a drag coefficient of
    /// 2.2.
    pub fn satellite(mass_mg: u64) -> (o: PhysicsObject)
        ensures
            o.collision_radius_mm == spec_icbrt(mass_mg as nat),
            o.drag_coefficient_milli == 2200,
            o.cross_section_cm2 == spec_icbrt(mass_mg as nat) * spec_icbrt(mass_mg as nat) * 314159
                / 10_000_000,
    {
        let r_mm: u64 = icbrt_u64(mass_mg);
        proof {
            assert(r_mm < 0x1_0000_0000) by (nonlinear_arith)
                requires
                    (r_mm as int) * (r_mm as int) * (r_mm as int) <= 0xffff_ffff_ffff_ffff_int,
            ;
        }
        PhysicsObject {
            cross_section_cm2: cross_section_cm2_of(r_mm),
            drag_coefficient_milli: 2200,
            collision_radius_mm: r_mm,
        }
    }

    /// Properties of a debris fragment of the given mass: less dense than
    /// a satellite, radius `(m_kg/2000)^(1/3)` metres — the cube root of
    /// half the mass in milligrams, in millimetres — and a higher drag
    /// coefficient of 2.5 for irregular shapes.
    pub fn debris(mass_mg: u64) -> (o: PhysicsObject)
        ensures
            o.collision_radius_mm == spec_icbrt((mass_mg / 2) as nat),
            o.drag_coefficient_milli == 2500,
            o.cross_section_cm2 == spec_icbrt((mass_mg / 2) as nat) * spec_icbrt(
                (mass_mg / 2) as nat,
            ) * 314159 / 10_000_000,
    {
        let r_mm: u64 = icbrt_u64(mass_mg / 2);
        proof {
            assert(r_mm < 0x1_0000_0000) by (nonlinear_arith)
                requires
                    (r_mm as int) * (r_mm as int) * (r_mm as int) <= 0xffff_ffff_ffff_ffff_int,
            ;
        }
        PhysicsObject {
            cross_section_cm2: cross_section_cm2_of(r_mm),
            drag_coefficient_milli: 2500,
            collision_radius_mm: r_mm,
        }
    }
}

/// Circular cross section of a body of radius `r_mm`, in square
/// centimetres: the floor of `π r²` with π as 3.14159.
fn cross_section_cm2_of(r_mm: u64) -> (a: u64)
    requires
        r_mm < 0x1_0000_0000,
    ensures
        a == r_mm * r_mm * 314159 / 10_000_000,
{
    proof {
        assert((r_mm as int) * (r_mm as int) * 314159 <= 0x1_0000_0000 * 0x1_0000_0000_int
            * 314159) by (nonlinear_arith)
            requires
                0 <= r_mm <= 0x1_0000_0000,
        ;
    }
    let sq: u128 = (r_mm as u128) * (r_mm as u128) * 314159;
    let a: u128 = sq / 10_000_000;
    a as u64
}

/// Debris lineage: which collision spawned this body and how deep in the
/// cascade it sits.
#[derive(Clone, Copy, PartialEq, Eq, Structural, Debug)]
pub struct Debris {
    /// Identifier of the collision event that created this debris, if any.
    pub parent_collision: Option<u32>,
    /// Cascade depth: 0 for an original body, n for debris of n nested
    /// collisions.
    pub generation: u32,
    /// Simulation time of creation, in milliseconds.
    pub creation_time_ms: u64,
}

impl Debris {
    pub fn new(parent_collision: Option<u32>, generation: u32, creation_time_ms: u64) -> (d: Debris)
        ensures
            d == (Debris { parent_collision, generation, creation_time_ms }),
    {
        Debris { parent_collision, generation, creation_time_ms }
    }

    /// Debris of a collision between two original (non-debris) bodies:
    /// first generation.
    pub fn from_collision(collision_id: u32, creation_time_ms: u64) -> (d: Debris)
        ensures
            d == (Debris {
                parent_collision: Some(collision_id),
                generation: 1,
                creation_time_ms,
            }),
    {
        Debris { parent_collision: Some(collision_id), generation: 1, creation_time_ms }
    }

    /// Debris of a collision involving existing debris: one generation
    /// deeper than the parent.
    pub fn from_debris(parent: &Debris, collision_id: u32, creation_time_ms: u64) -> (d: Debris)
        requires
            parent.generation < u32::MAX,
        ensures
            d == (Debris {
                parent_collision: Some(collision_id),
                generation: (parent.generation + 1) as u32,
                creation_time_ms,
            }),
    {
        Debris {
            parent_collision: Some(collision_id),
            generation: parent.generation + 1,
            creation_time_ms,
        }
    }
}

/// An active satellite's catalogue identity.
#[derive(Clone, PartialEq, Eq, Debug)]
pub struct Satellite {
    /// Display name.
    pub name: String,
    /// Catalogue number.
    pub norad_id: u32,
    /// Whether the satellite is operational.
    pub active: bool,
}

impl Satellite {
    pub fn new(name: String, norad_id: u32, active: bool) -> (s: Satellite)
        ensures
            s.name == name,
            s.norad_id == norad_id,
            s.active == active,
    {
        Satellite { name, norad_id, active }
    }
}

} // verus!
