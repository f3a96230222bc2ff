// Unit tests for debris generation: the bounded breakup model, mass
// conservation, velocity arithmetic and multi-generation tracking.
// Masses are milligrams (1 kg = 10^6 mg), velocities millimetres per
// second, energies joules, times milliseconds.

use kessler_simulator::bodies::Debris;
use kessler_simulator::debris_model::{debris_count, fragment_mass_mg};
use kessler_simulator::math::Vec3;

const KG: u64 = 1_000_000;

#[test]
fn test_nasa_breakup_model_debris_count() {
    // Test that debris count follows the bounded breakup model
    // Low energy collision
    let low_energy: u128 = 10_000_000_000; // 10 GJ
    let mass = 1000 * KG; // 1000 kg
    let count = debris_count(low_energy, mass);

    // Should generate at least 2 pieces (minimum)
    assert!(count >= 2, "Should generate at least 2 debris pieces");
    assert!(count <= 50, "Should not exceed 50 debris pieces");

    // High energy collision
    let high_energy: u128 = 1_000_000_000_000_000; // 1 PJ
    let high_mass = 10000 * KG; // 10000 kg
    let high_count = debris_count(high_energy, high_mass);

    // Should generate more debris for higher energy/mass
    assert!(
        high_count >= count,
        "Higher energy/mass should generate more debris"
    );
}

#[test]
fn test_debris_count_scaling_with_mass() {
    // Test that debris count scales with mass
    let energy: u128 = 1_000_000_000_000; // Fixed energy, 1 TJ

    let small_mass = 100 * KG; // 100 kg
    let small_debris = debris_count(energy, small_mass);

    let large_mass = 10000 * KG; // 10000 kg
    let large_debris = debris_count(energy, large_mass);

    // Larger mass should generate more debris
    assert!(
        large_debris >= small_debris,
        "Larger mass should generate more debris: {} vs {}",
        large_debris,
        small_debris
    );
}

#[test]
fn test_debris_count_scaling_with_energy() {
    // Test that debris count scales with collision energy
    let mass = 1000 * KG; // Fixed mass

    let low_energy: u128 = 10_000_000_000; // 10 GJ
    let low_debris = debris_count(low_energy, mass);

    let high_energy: u128 = 100_000_000_000_000; // 100 TJ
    let high_debris = debris_count(high_energy, mass);

    // Higher energy should generate more debris
    assert!(
        high_debris >= low_debris,
        "Higher energy should generate more debris: {} vs {}",
        high_debris,
        low_debris
    );
}

#[test]
fn test_debris_count_bounds() {
    // Test that debris count stays within bounds
    let mass = 1000 * KG;

    // Very low energy
    let very_low_energy: u128 = 100_000; // 100 kJ
    let low_debris = debris_count(very_low_energy, mass);
    assert_eq!(
        low_debris, 2,
        "Very low energy should generate minimum 2 pieces"
    );

    // Very high energy - test that it's capped
    let very_high_energy: u128 = 100_000_000_000_000_000_000; // 100 EJ
    let high_debris = debris_count(very_high_energy, mass);
    assert!(
        high_debris >= 2 && high_debris <= 100,
        "Very high energy should generate reasonable debris count (2-100): got {}",
        high_debris
    );
}

#[test]
fn test_mass_conservation() {
    // Test that total mass is approximately conserved in debris generation
    let mass1 = 1000 * KG;
    let mass2 = 2000 * KG;
    let total_mass = mass1 + mass2;

    let collision_energy: u128 = 1_000_000_000_000; // 1 TJ
    let count = debris_count(collision_energy, total_mass);

    // Each debris piece carries total_mass / count * 0.1 (10% of original)
    let debris_mass_per_piece = fragment_mass_mg(total_mass, count);
    let total_debris_mass = debris_mass_per_piece * count as u64;

    // Total debris mass should be approximately 10% of original (rest is lost/evaporated)
    let expected_debris_mass = total_mass / 10;
    let difference = if total_debris_mass > expected_debris_mass {
        total_debris_mass - expected_debris_mass
    } else {
        expected_debris_mass - total_debris_mass
    };
    assert!(
        (difference as f64) <= 0.01 * total_mass as f64,
        "Total debris mass should be about 10% of the combined mass: {} vs {}",
        total_debris_mass,
        expected_debris_mass
    );
}

#[test]
fn test_debris_velocity_distribution() {
    // Test that debris velocities are physically reasonable
    let vel1 = Vec3::new(7_000_000, 0, 0); // 7 km/s
    let vel2 = Vec3::new(-7_000_000, 0, 0); // -7 km/s (head-on collision)
    let relative = vel2.sub(&vel1);
    let relative_speed = relative.norm();

    // Relative speed should be 14 km/s
    assert_eq!(relative_speed, 14_000_000, "Relative speed should be 14 km/s");

    // Debris velocity should be in reasonable range
    // (average velocity plus some fraction of relative speed)
    let avg_velocity = kessler_simulator::math::midpoint(&vel1, &vel2);
    assert_eq!(avg_velocity.norm(), 0, "Average velocity should vanish head-on");
}

#[test]
fn test_multi_generation_debris_tracking() {
    // Test that debris can track its generation
    let debris1 = Debris::new(None, 0, 0); // First generation
    assert_eq!(
        debris1.generation, 0,
        "First generation debris should have generation 0"
    );
    assert!(
        debris1.parent_collision.is_none(),
        "First generation debris should have no parent collision"
    );

    // Second generation debris (from collision of first generation)
    let parent_id = Some(123);
    let debris2 = Debris::new(parent_id, 1, 1000); // Second generation
    assert_eq!(
        debris2.generation, 1,
        "Second generation debris should have generation 1"
    );
    assert_eq!(
        debris2.parent_collision, parent_id,
        "Second generation should track parent collision"
    );

    // Third generation
    let debris3 = Debris::new(Some(456), 2, 2000);
    assert_eq!(
        debris3.generation, 2,
        "Third generation debris should have generation 2"
    );
}

#[test]
fn test_debris_creation_timestamp() {
    // Test that debris tracks creation time (100.5 seconds in milliseconds)
    let creation_time_ms = 100_500;
    let debris = Debris::new(None, 0, creation_time_ms);

    assert_eq!(
        debris.creation_time_ms, creation_time_ms,
        "Debris should track creation time"
    );
}

#[test]
fn test_debris_mass_distribution() {
    // Test that debris mass is distributed across fragments
    let total_mass = 3000 * KG;
    let collision_energy: u128 = 1_000_000_000_000;
    let count = debris_count(collision_energy, total_mass);

    // Mass per piece: a tenth of the total, split over the fragments
    let mass_per_piece = fragment_mass_mg(total_mass, count);

    // Each piece should have positive mass
    assert!(mass_per_piece > 0, "Debris pieces should have positive mass");

    // Total debris mass should be less than original (some mass lost)
    let total_debris_mass = mass_per_piece * count as u64;
    assert!(
        total_debris_mass < total_mass,
        "Total debris mass should be less than original: {} < {}",
        total_debris_mass,
        total_mass
    );
}

#[test]
fn test_debris_velocity_magnitude() {
    // Test that debris velocities have reasonable magnitudes
    let vel1 = Vec3::new(7_660_000, 0, 0); // ISS-like velocity, 7.66 km/s
    let vel2 = Vec3::new(7_660_000, 0, 0); // Same velocity (no collision)
    let relative_speed = vel2.sub(&vel1).norm();

    // For same velocity, relative speed should be zero
    assert_eq!(relative_speed, 0, "Same velocities should have zero relative speed");

    // For head-on collision
    let vel3 = Vec3::new(-7_660_000, 0, 0);
    let head_on_relative = vel3.sub(&vel1).norm();
    assert_eq!(head_on_relative, 15_320_000, "Head-on relative speed should be 15.32 km/s");
}

#[test]
fn test_debris_generation_cascade() {
    // Test that debris can create more debris (Kessler cascade)
    // First generation
    let gen1_debris = Debris::new(None, 0, 0);
    assert_eq!(gen1_debris.generation, 0);

    // Second generation (from collision of gen1)
    let gen2_debris = Debris::new(Some(1), 1, 1000);
    assert_eq!(gen2_debris.generation, 1);

    // Third generation (from collision of gen2)
    let gen3_debris = Debris::new(Some(2), 2, 2000);
    assert_eq!(gen3_debris.generation, 2);

    // Each generation should be tracked
    assert!(gen3_debris.generation > gen2_debris.generation);
    assert!(gen2_debris.generation > gen1_debris.generation);
}

#[test]
fn test_debris_count_rounds_the_sum() {
    // The fragment count rounds the untruncated sum of the two square
    // roots: 2560 kg and 2.56 TJ give sqrt(2.56) + sqrt(2.56) = 3.2,
    // which rounds to 3 — not the 2 that truncating each root would give
    let count = debris_count(2_560_000_000_000, 2560 * KG);
    assert_eq!(count, 3, "round(1.6 + 1.6) is 3");

    // 1000 kg and 2.4 TJ: 1 + sqrt(2.4) = 2.549..., rounds to 3
    assert_eq!(debris_count(2_400_000_000_000, 1000 * KG), 3);

    // a half-way sum rounds up: 6250 kg alone gives sqrt(6.25) = 2.5
    assert_eq!(debris_count(0, 6250 * KG), 3, "ties round upward");

    // and just below the half-way point rounds down
    assert_eq!(debris_count(0, 6000 * KG), 2, "sqrt(6) = 2.449 rounds to 2");
}
