// Randomized tests for the energy model: conservation under integration
// and scaling laws of the kinetic and potential terms.

use kessler_simulator::bodies::OrbitalState;
use kessler_simulator::constants::Constants;
use kessler_simulator::math::Vec3;
use kessler_simulator::physics::EulerIntegrator;
use rand::Rng;
use rand::SeedableRng;

const KM: i64 = 1_000_000;
const KG: u64 = 1_000_000;

fn circular_state(altitude_km: u64, mass_mg: u64) -> OrbitalState {
    let constants = Constants::default();
    let radius_km = constants.body_radius_km + altitude_km;
    let v = constants.circular_velocity_mm_s(altitude_km);
    OrbitalState::new(
        Vec3::new(radius_km as i64 * KM, 0, 0),
        Vec3::new(0, v as i64, 0),
        mass_mg,
    )
}

fn step(state: &mut OrbitalState, constants: &Constants, dt_ms: u64) {
    let (p, v) = EulerIntegrator::integrate(
        state.position,
        state.velocity,
        dt_ms,
        constants.gravitational_parameter,
    );
    state.position = p;
    state.velocity = v;
}

#[test]
fn test_energy_conservation_random_states() {
    // Energy stays within 5% over 50 Euler steps for random circular orbits
    let constants = Constants::default();
    let mut rng = rand::rngs::StdRng::seed_from_u64(5);
    for _ in 0..20 {
        let altitude: u64 = rng.gen_range(200..2000);
        let mass: u64 = rng.gen_range(100..10000) * KG;
        let mut state = circular_state(altitude, mass);

        let initial = state.total_energy_j(constants.gravitational_parameter) as f64;
        for _ in 0..50 {
            step(&mut state, &constants, 100);
        }
        let final_energy = state.total_energy_j(constants.gravitational_parameter) as f64;

        let relative = (initial - final_energy).abs() / initial.abs();
        assert!(
            relative < 0.05,
            "Energy not conserved at altitude {}: {:.6e} vs {:.6e}",
            altitude,
            initial,
            final_energy
        );
    }
}

#[test]
fn test_energy_scaling_with_mass() {
    // Total energy scales linearly with mass for the same state vectors
    let constants = Constants::default();
    let mut rng = rand::rngs::StdRng::seed_from_u64(7);
    for _ in 0..20 {
        let altitude: u64 = rng.gen_range(200..2000);
        let mass1: u64 = rng.gen_range(100..5000) * KG;
        let mass2: u64 = rng.gen_range(100..5000) * KG;

        let mut state1 = circular_state(altitude, mass1);
        state1.mass_mg = mass1;
        let mut state2 = circular_state(altitude, mass2);
        state2.mass_mg = mass2;

        let energy1 = state1.total_energy_j(constants.gravitational_parameter) as f64;
        let energy2 = state2.total_energy_j(constants.gravitational_parameter) as f64;

        let energy_ratio = energy1 / energy2;
        let mass_ratio = mass1 as f64 / mass2 as f64;
        assert!(
            (energy_ratio - mass_ratio).abs() < 0.01 * mass_ratio.abs(),
            "Energy should scale linearly with mass: {} vs {}",
            energy_ratio,
            mass_ratio
        );
    }
}

#[test]
fn test_potential_energy_decreases_with_altitude() {
    // Potential energy becomes less negative at higher altitude
    let constants = Constants::default();
    let mut rng = rand::rngs::StdRng::seed_from_u64(13);
    for _ in 0..20 {
        let altitude1: i64 = rng.gen_range(200..1000);
        let altitude2: i64 = rng.gen_range(1000..2000);
        let mass: u64 = rng.gen_range(1000..5000) * KG;

        let velocity = Vec3::new(0, 7_660_000, 0);
        let state1 = OrbitalState::new(
            Vec3::new((6371 + altitude1) * KM, 0, 0),
            velocity,
            mass,
        );
        let state2 = OrbitalState::new(
            Vec3::new((6371 + altitude2) * KM, 0, 0),
            velocity,
            mass,
        );

        let pe1 = state1.potential_energy_j(constants.gravitational_parameter);
        let pe2 = state2.potential_energy_j(constants.gravitational_parameter);

        assert!(
            pe2 > pe1,
            "Higher altitude should have less negative PE: {} > {}",
            pe2,
            pe1
        );
    }
}

#[test]
fn test_kinetic_energy_increases_with_velocity() {
    // KE = m v² / 2, so the ratio of energies is the squared speed ratio
    let mut rng = rand::rngs::StdRng::seed_from_u64(17);
    for _ in 0..20 {
        let altitude: i64 = rng.gen_range(200..2000);
        let speed1: i64 = rng.gen_range(5_000_000..8_000_000);
        let speed2: i64 = rng.gen_range(8_000_001..12_000_000);
        let mass: u64 = rng.gen_range(1000..5000) * KG;

        let position = Vec3::new((6371 + altitude) * KM, 0, 0);
        let state1 = OrbitalState::new(position, Vec3::new(0, speed1, 0), mass);
        let state2 = OrbitalState::new(position, Vec3::new(0, speed2, 0), mass);

        let ke1 = state1.kinetic_energy_j() as f64;
        let ke2 = state2.kinetic_energy_j() as f64;

        let expected_ratio = (speed2 as f64 / speed1 as f64).powi(2);
        let actual_ratio = ke2 / ke1;
        assert!(
            (actual_ratio - expected_ratio).abs() < 0.01 * expected_ratio,
            "KE should scale with the squared speed: {} vs {}",
            actual_ratio,
            expected_ratio
        );
    }
}

#[test]
fn test_total_energy_negative_for_bound_orbits() {
    // Bound circular orbits have negative total mechanical energy
    let constants = Constants::default();
    let mut rng = rand::rngs::StdRng::seed_from_u64(19);
    for _ in 0..20 {
        let altitude: u64 = rng.gen_range(200..2000);
        let mass: u64 = rng.gen_range(100..10000) * KG;
        let state = circular_state(altitude, mass);

        let total = state.total_energy_j(constants.gravitational_parameter);
        assert!(
            total < 0,
            "Bound orbit should have negative total energy: {} J",
            total
        );
    }
}
