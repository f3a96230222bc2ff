// Randomized tests for orbital behaviour: conservation of energy and
// angular momentum across the whole seeded altitude band (200–2000 km)
// under both integrators, preservation of the semi-major axis, and the
// velocity-altitude scaling law.

use kessler_simulator::bodies::OrbitalState;
use kessler_simulator::constants::Constants;
use kessler_simulator::math::Vec3;
use kessler_simulator::physics::{EulerIntegrator, RK4Integrator};
use rand::Rng;
use rand::SeedableRng;

const KM: i64 = 1_000_000;
const KG: u64 = 1_000_000;

fn circular_state(altitude_km: u64) -> OrbitalState {
    let constants = Constants::default();
    let radius_km = constants.body_radius_km + altitude_km;
    let v = constants.circular_velocity_mm_s(altitude_km);
    OrbitalState::new(
        Vec3::new(radius_km as i64 * KM, 0, 0),
        Vec3::new(0, v as i64, 0),
        1000 * KG,
    )
}

fn step_euler(state: &mut OrbitalState, constants: &Constants, dt_ms: u64) {
    let (p, v) = EulerIntegrator::integrate(
        state.position,
        state.velocity,
        dt_ms,
        constants.gravitational_parameter,
    );
    state.position = p;
    state.velocity = v;
}

fn step_rk4(state: &mut OrbitalState, constants: &Constants, dt_ms: u64) {
    let (p, v) = RK4Integrator::integrate(
        state.position,
        state.velocity,
        dt_ms,
        constants.gravitational_parameter,
    );
    state.position = p;
    state.velocity = v;
}

fn angular_momentum(state: &OrbitalState) -> f64 {
    let rx = state.position.x as f64;
    let ry = state.position.y as f64;
    let rz = state.position.z as f64;
    let vx = state.velocity.x as f64;
    let vy = state.velocity.y as f64;
    let vz = state.velocity.z as f64;
    let cx = ry * vz - rz * vy;
    let cy = rz * vx - rx * vz;
    let cz = rx * vy - ry * vx;
    (cx * cx + cy * cy + cz * cz).sqrt()
}

#[test]
fn test_energy_conservation_across_altitudes() {
    // For circular orbits seeded anywhere in the 200–2000 km band,
    // thousands of small steps keep the energy within a few percent under
    // Euler, and materially tighter under RK4
    let constants = Constants::default();
    for &altitude in &[200u64, 500, 1000, 1500, 2000] {
        let mut euler_state = circular_state(altitude);
        let mut rk4_state = circular_state(altitude);
        let initial = euler_state.total_energy_j(constants.gravitational_parameter) as f64;

        for _ in 0..2000 {
            step_euler(&mut euler_state, &constants, 100);
            step_rk4(&mut rk4_state, &constants, 100);
        }

        let euler_final = euler_state.total_energy_j(constants.gravitational_parameter) as f64;
        let rk4_final = rk4_state.total_energy_j(constants.gravitational_parameter) as f64;

        let euler_drift = (euler_final - initial).abs() / initial.abs();
        let rk4_drift = (rk4_final - initial).abs() / initial.abs();
        assert!(
            euler_drift < 0.03,
            "Euler drift at {} km should stay within a few percent: {:.6}",
            altitude,
            euler_drift
        );
        assert!(
            rk4_drift < 0.005,
            "RK4 drift at {} km should be materially tighter: {:.6}",
            altitude,
            rk4_drift
        );
    }
}

#[test]
fn test_angular_momentum_across_altitudes() {
    // |r × v| is conserved within the same bound for both integrators
    let constants = Constants::default();
    for &altitude in &[200u64, 700, 1300, 2000] {
        let mut euler_state = circular_state(altitude);
        let mut rk4_state = circular_state(altitude);
        let initial = angular_momentum(&euler_state);

        for _ in 0..2000 {
            step_euler(&mut euler_state, &constants, 100);
            step_rk4(&mut rk4_state, &constants, 100);
        }

        let euler_drift = (angular_momentum(&euler_state) - initial).abs() / initial;
        let rk4_drift = (angular_momentum(&rk4_state) - initial).abs() / initial;
        assert!(
            euler_drift < 0.03,
            "Euler angular momentum drift at {} km: {:.6}",
            altitude,
            euler_drift
        );
        assert!(
            rk4_drift < 0.005,
            "RK4 angular momentum drift at {} km: {:.6}",
            altitude,
            rk4_drift
        );
    }
}

#[test]
fn test_semi_major_axis_preservation() {
    // The semi-major axis a = -GM m / (2E) is approximately preserved
    let constants = Constants::default();
    let mut rng = rand::rngs::StdRng::seed_from_u64(29);
    for _ in 0..10 {
        let altitude: u64 = rng.gen_range(200..2000);
        let mut state = circular_state(altitude);

        let mu_km = constants.gravitational_parameter as f64 / 1.0e9; // km³/s²
        let mass_kg = state.mass_mg as f64 / 1.0e6;
        let initial_energy = state.total_energy_j(constants.gravitational_parameter) as f64;
        let initial_semi_major = -mu_km * mass_kg * 1.0e9 / (2.0 * initial_energy) / 1.0e9;

        for _ in 0..100 {
            step_euler(&mut state, &constants, 100);
        }

        let final_energy = state.total_energy_j(constants.gravitational_parameter) as f64;
        let final_semi_major = -mu_km * mass_kg * 1.0e9 / (2.0 * final_energy) / 1.0e9;

        assert!(
            (final_semi_major - initial_semi_major).abs() < 100.0,
            "Semi-major axis should be preserved: {:.2} vs {:.2} km",
            final_semi_major,
            initial_semi_major
        );
    }
}

#[test]
fn test_energy_conservation_over_long_time() {
    // Energy stays within 10% over a thousand steps anywhere in the band
    let constants = Constants::default();
    let mut rng = rand::rngs::StdRng::seed_from_u64(31);
    for _ in 0..10 {
        let altitude: u64 = rng.gen_range(200..2000);
        let mut state = circular_state(altitude);

        let initial = state.total_energy_j(constants.gravitational_parameter) as f64;
        for _ in 0..1000 {
            step_euler(&mut state, &constants, 100);
        }
        let final_energy = state.total_energy_j(constants.gravitational_parameter) as f64;

        let relative = (initial - final_energy).abs() / initial.abs();
        assert!(
            relative < 0.1,
            "Energy should hold over long runs at {} km: {:.6}",
            altitude,
            relative
        );
    }
}

#[test]
fn test_orbital_velocity_scaling() {
    // Orbital velocity decreases with altitude
    let constants = Constants::default();
    let mut rng = rand::rngs::StdRng::seed_from_u64(43);
    for _ in 0..20 {
        let altitude1: u64 = rng.gen_range(200..1000);
        let altitude2: u64 = rng.gen_range(1000..2000);

        let vel1 = constants.circular_velocity_mm_s(altitude1);
        let vel2 = constants.circular_velocity_mm_s(altitude2);

        assert!(
            vel2 < vel1,
            "Higher altitude should orbit slower: {} < {}",
            vel2,
            vel1
        );
    }
}
