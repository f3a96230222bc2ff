// Unit tests for the physics kernel: gravitational acceleration, orbital
// velocities, energies, Euler integration and conservation over time.
// Positions are millimetres, velocities mm/s, masses milligrams, times
// milliseconds; tests convert to familiar units with f64 arithmetic.

use kessler_simulator::bodies::OrbitalState;
use kessler_simulator::constants::Constants;
use kessler_simulator::math::Vec3;
use kessler_simulator::physics::EulerIntegrator;

const KM: i64 = 1_000_000;
const KG: u64 = 1_000_000;

/// A circular orbit at the given altitude: position on the x axis,
/// velocity along y, 1000 kg of mass.
fn create_test_orbital_state(altitude_km: u64) -> OrbitalState {
    let constants = Constants::default();
    let radius_km = constants.body_radius_km + altitude_km;
    let orbital_velocity = constants.circular_velocity_mm_s(altitude_km);
    OrbitalState::new(
        Vec3::new(radius_km as i64 * KM, 0, 0),
        Vec3::new(0, orbital_velocity as i64, 0),
        1000 * KG,
    )
}

/// Advance a state by one Euler step of `dt_ms` milliseconds.
fn run_physics_step(state: &mut OrbitalState, constants: &Constants, dt_ms: u64) {
    let (p, v) = EulerIntegrator::integrate(
        state.position,
        state.velocity,
        dt_ms,
        constants.gravitational_parameter,
    );
    state.position = p;
    state.velocity = v;
}

fn total_energy(state: &OrbitalState, constants: &Constants) -> f64 {
    state.total_energy_j(constants.gravitational_parameter) as f64
}

fn assert_energy_conserved(before: f64, after: f64, tolerance: f64) {
    let difference = (before - after).abs();
    let relative_error = if before.abs() > 0.0 {
        difference / before.abs()
    } else {
        difference
    };
    assert!(
        relative_error < tolerance,
        "Energy not conserved: before={:.6e}, after={:.6e}, relative_error={:.6e}",
        before,
        after,
        relative_error
    );
}

#[test]
fn test_gravitational_force_calculation() {
    // Test that gravitational force calculation is correct
    let constants = Constants::default();

    // At ISS altitude (~400 km), gravitational acceleration should be about 8.7 m/s²
    let altitude_km = 400;
    let radius_km = constants.body_radius_km + altitude_km;
    let acceleration_um_s2 = constants.gravity_acceleration_um_s2(radius_km);
    let acceleration = acceleration_um_s2 as f64 / 1.0e6; // m/s²

    let expected_acceleration = 8.7;
    assert!(
        (acceleration - expected_acceleration).abs() < 0.1,
        "g at 400 km should be about 8.7 m/s²: got {}",
        acceleration
    );
}

#[test]
fn test_circular_velocity() {
    // Test circular orbital velocity calculation
    let constants = Constants::default();

    // At ISS altitude (~400 km), circular velocity should be about 7.66 km/s
    let velocity = constants.circular_velocity_mm_s(400) as f64 / 1.0e6;
    assert!(
        (velocity - 7.66).abs() < 0.1,
        "circular velocity at 400 km should be about 7.66 km/s: got {}",
        velocity
    );

    // At GEO altitude (35786 km), circular velocity should be about 3.07 km/s
    let geo_velocity = constants.circular_velocity_mm_s(35786) as f64 / 1.0e6;
    assert!(
        (geo_velocity - 3.07).abs() < 0.1,
        "circular velocity at GEO should be about 3.07 km/s: got {}",
        geo_velocity
    );
}

#[test]
fn test_escape_velocity() {
    // Test escape velocity calculation: sqrt(2) times circular velocity
    let constants = Constants::default();

    let altitude_km = 400;
    let circular_vel = constants.circular_velocity_mm_s(altitude_km) as f64 / 1.0e6;
    let escape_vel =
        constants.escape_velocity_mm_s(constants.body_radius_km + altitude_km) as f64 / 1.0e6;

    let expected_escape = circular_vel * 2.0_f64.sqrt();
    assert!(
        (escape_vel - expected_escape).abs() < 0.1,
        "escape velocity should be sqrt(2) times circular: {} vs {}",
        escape_vel,
        expected_escape
    );
}

#[test]
fn test_kinetic_energy() {
    // Test kinetic energy calculation
    let position = Vec3::new(6771 * KM, 0, 0); // 400 km altitude
    let velocity = Vec3::new(0, 7_660_000, 0); // 7.66 km/s
    let mass = 1000 * KG; // 1000 kg

    let orbital_state = OrbitalState::new(position, velocity, mass);
    let ke = orbital_state.kinetic_energy_j() as f64;

    // KE = 0.5 * m * v²; v = 7.66 km/s = 7660 m/s
    let expected_ke = 0.5 * 1000.0 * (7660.0_f64).powi(2);
    assert!(
        (ke - expected_ke).abs() < 1.0e8,
        "kinetic energy should be about 2.93e10 J: got {:.6e}",
        ke
    );
}

#[test]
fn test_potential_energy() {
    // Test potential energy calculation
    let constants = Constants::default();
    let position = Vec3::new(6771 * KM, 0, 0); // 400 km altitude
    let velocity = Vec3::new(0, 7_660_000, 0);
    let mass = 1000 * KG;

    let orbital_state = OrbitalState::new(position, velocity, mass);
    let pe = orbital_state.potential_energy_j(constants.gravitational_parameter);

    // PE = -GMm/r: should be negative (bound orbit)
    assert!(pe < 0, "Potential energy should be negative for bound orbit");

    // At higher altitude, potential energy should be less negative (closer to zero)
    let higher_position = Vec3::new(10000 * KM, 0, 0);
    let higher_state = OrbitalState::new(higher_position, velocity, mass);
    let higher_pe = higher_state.potential_energy_j(constants.gravitational_parameter);

    assert!(
        higher_pe > pe,
        "Higher altitude should have less negative potential energy"
    );
}

#[test]
fn test_total_energy() {
    // Test total energy calculation
    let constants = Constants::default();
    let position = Vec3::new(6771 * KM, 0, 0); // 400 km altitude
    let velocity = Vec3::new(0, 7_660_000, 0);
    let mass = 1000 * KG;

    let orbital_state = OrbitalState::new(position, velocity, mass);
    let total = orbital_state.total_energy_j(constants.gravitational_parameter);

    // For a bound circular orbit, total energy should be negative
    assert!(total < 0, "Total energy should be negative for bound orbit");

    // Total energy = KE + PE, exactly in the fixed-point model
    let ke = orbital_state.kinetic_energy_j() as i128;
    let pe = orbital_state.potential_energy_j(constants.gravitational_parameter);
    assert_eq!(total, ke + pe, "Total energy should equal KE + PE");
}

#[test]
fn test_euler_integration() {
    // Test that Euler integration advances position and velocity correctly
    let constants = Constants::default();
    let mut state = create_test_orbital_state(400);

    let initial_position = state.position;
    let initial_velocity = state.velocity;
    let initial_energy = total_energy(&state, &constants);

    // Run one physics step of 0.1 seconds
    run_physics_step(&mut state, &constants, 100);

    // Position should have changed
    assert_ne!(
        state.position, initial_position,
        "Position should change after physics step"
    );

    // Velocity should have changed (due to gravitational acceleration)
    assert_ne!(
        state.velocity, initial_velocity,
        "Velocity should change after physics step"
    );

    // Energy should be approximately conserved (within numerical precision)
    let final_energy = total_energy(&state, &constants);
    assert_energy_conserved(initial_energy, final_energy, 0.01); // 1% tolerance for Euler
}

#[test]
fn test_energy_conservation_over_time() {
    // Test that energy is conserved over multiple physics steps
    let constants = Constants::default();
    let mut state = create_test_orbital_state(400);

    let initial_energy = total_energy(&state, &constants);

    // Run 100 physics steps of 0.1 seconds
    for _ in 0..100 {
        run_physics_step(&mut state, &constants, 100);
    }

    let final_energy = total_energy(&state, &constants);

    // Energy should be conserved within reasonable tolerance for Euler integration
    assert_energy_conserved(initial_energy, final_energy, 0.05);
}

#[test]
fn test_orbital_period_preservation() {
    // Test that orbital period is approximately preserved
    let constants = Constants::default();
    let mut state = create_test_orbital_state(400);

    let initial_radius_km = state.radius_mm() as f64 / 1.0e6;

    // Calculate expected orbital period: T = 2π sqrt(r³/GM)
    let mu_km = constants.gravitational_parameter as f64 / 1.0e9; // km³/s²
    let expected_period =
        2.0 * std::f64::consts::PI * (initial_radius_km.powi(3) / mu_km).sqrt();

    // Run physics for approximately one orbital period at 1-second steps
    let steps = expected_period as usize;
    for _ in 0..steps {
        run_physics_step(&mut state, &constants, 1000);
    }

    // After one period, the radius should be approximately back to initial
    let final_radius_km = state.radius_mm() as f64 / 1.0e6;
    assert!(
        (final_radius_km - initial_radius_km).abs() < 100.0,
        "Radius after one period should be near the start: {:.2} vs {:.2} km",
        final_radius_km,
        initial_radius_km
    );
}

#[test]
fn test_angular_momentum_conservation() {
    // Test that angular momentum |r × v| is approximately conserved
    let constants = Constants::default();
    let mut state = create_test_orbital_state(400);

    fn angular_momentum(state: &OrbitalState) -> f64 {
        let rx = state.position.x as f64;
        let ry = state.position.y as f64;
        let rz = state.position.z as f64;
        let vx = state.velocity.x as f64;
        let vy = state.velocity.y as f64;
        let vz = state.velocity.z as f64;
        let cx = ry * vz - rz * vy;
        let cy = rz * vx - rx * vz;
        let cz = rx * vy - ry * vx;
        (cx * cx + cy * cy + cz * cz).sqrt()
    }

    let initial_l = angular_momentum(&state);

    // Run physics for several steps of 0.1 seconds
    for _ in 0..50 {
        run_physics_step(&mut state, &constants, 100);
    }

    let final_l = angular_momentum(&state);

    // Angular momentum should be approximately conserved
    assert!(
        (final_l - initial_l).abs() < 0.1 * initial_l,
        "Angular momentum should be conserved: {:.6e} vs {:.6e}",
        final_l,
        initial_l
    );
}

#[test]
fn test_physics_system_with_multiple_objects() {
    // Test that physics handles multiple independent objects correctly
    let constants = Constants::default();

    let mut state1 = create_test_orbital_state(400);
    let mut state2 = create_test_orbital_state(500);
    let mut state3 = create_test_orbital_state(600);

    let initial_energy1 = total_energy(&state1, &constants);
    let initial_energy2 = total_energy(&state2, &constants);
    let initial_energy3 = total_energy(&state3, &constants);

    // Run physics for all objects, 10 steps of 0.1 seconds
    for _ in 0..10 {
        run_physics_step(&mut state1, &constants, 100);
        run_physics_step(&mut state2, &constants, 100);
        run_physics_step(&mut state3, &constants, 100);
    }

    // Each object's energy should be conserved independently
    assert_energy_conserved(initial_energy1, total_energy(&state1, &constants), 0.01);
    assert_energy_conserved(initial_energy2, total_energy(&state2, &constants), 0.01);
    assert_energy_conserved(initial_energy3, total_energy(&state3, &constants), 0.01);
}

#[test]
fn test_zero_velocity_case() {
    // Test edge case: object with zero velocity (should fall)
    let constants = Constants::default();
    let position = Vec3::new(6771 * KM, 0, 0); // 400 km altitude
    let velocity = Vec3::zero();
    let mut state = OrbitalState::new(position, velocity, 1000 * KG);

    let initial_radius = state.radius_mm();

    // Run one physics step of 1 second
    run_physics_step(&mut state, &constants, 1000);

    // Object should fall (radius should decrease)
    let final_radius = state.radius_mm();
    assert!(
        final_radius < initial_radius,
        "Object with zero velocity should fall: {} -> {} mm",
        initial_radius,
        final_radius
    );
}

#[test]
fn test_very_high_altitude() {
    // Test physics at very high altitude (GEO)
    let constants = Constants::default();
    let mut state = create_test_orbital_state(35786); // GEO altitude

    let initial_energy = total_energy(&state, &constants);

    // Run physics for a long time, 100 steps of 1 second
    for _ in 0..100 {
        run_physics_step(&mut state, &constants, 1000);
    }

    let final_energy = total_energy(&state, &constants);

    // Energy should still be conserved
    assert_energy_conserved(initial_energy, final_energy, 0.01);

    // Velocity should be lower at GEO
    let speed_km_s = state.speed_mm_s() as f64 / 1.0e6;
    assert!(
        speed_km_s < 4.0,
        "Velocity at GEO should be less than 4 km/s: {:.2} km/s",
        speed_km_s
    );
}
