// End-to-end tests of the simulation pipeline: spawning, the tick cycle,
// collision consumption and debris spawning, the deterministic skip rule,
// the clock, the store's generational identities, and the exact collision
// scenario of two 1000 kg bodies meeting at 15 km/s.

use kessler_simulator::background::{decay_probability_permille, decay_roll_hits,
    injection_count};
use kessler_simulator::bodies::{OrbitalState, PhysicsObject};
use kessler_simulator::collision::skip_interval;
use kessler_simulator::constants::Constants;
use kessler_simulator::debris_model::{collision_energy_j, debris_count, fragment_mass_mg};
use kessler_simulator::ids::EntityId;
use kessler_simulator::math::Vec3;
use kessler_simulator::octree::{OctreeNode, Octants, SpatialOctree};
use kessler_simulator::rng::{rng_from_seed, rng_range_u64};
use kessler_simulator::sim::Simulation;
use kessler_simulator::sim_time::SimulationTime;
use kessler_simulator::store::{Body, Store};

const KM: i64 = 1_000_000;
const KG: u64 = 1_000_000;

#[test]
fn test_collision_scenario_two_bodies() {
    // Scenario: two 1000 kg bodies at (6771, 0, 0) km with velocities
    // (7.5, 0, 0) and (-7.5, 0, 0) km/s: relative speed 15 km/s, collision
    // energy about 2.25e11 J, and exactly 2 fragments
    let v1 = Vec3::new(7_500_000, 0, 0);
    let v2 = Vec3::new(-7_500_000, 0, 0);
    let rel = v2.sub(&v1);
    assert_eq!(rel.norm(), 15_000_000, "relative speed should be 15 km/s");

    let energy = collision_energy_j(1000 * KG, 1000 * KG, &rel);
    assert_eq!(energy, 225_000_000_000, "collision energy should be 2.25e11 J");

    let count = debris_count(energy, 2000 * KG);
    assert_eq!(count, 2, "the scenario should yield exactly 2 fragments");

    // A tenth of the combined mass, split over the two fragments
    let frag = fragment_mass_mg(2000 * KG, count);
    assert_eq!(frag, 100 * KG, "each fragment should carry 100 kg");
}

fn count_stored(node: &OctreeNode) -> usize {
    let mut n = node.objects.len();
    if let Some(b) = &node.children {
        let oct: &Octants = b;
        n += count_stored(&oct.c0);
        n += count_stored(&oct.c1);
        n += count_stored(&oct.c2);
        n += count_stored(&oct.c3);
        n += count_stored(&oct.c4);
        n += count_stored(&oct.c5);
        n += count_stored(&oct.c6);
        n += count_stored(&oct.c7);
    }
    n
}

#[test]
fn test_octree_bulk_insert_and_clear() {
    // Scenario: inserting 1000 objects into an empty octree (half-size
    // 50,000 km, max depth 6), then calling clear, yields zero stored
    // objects and no children
    let mut octree = SpatialOctree::default();
    for i in 0..1000i64 {
        let position = Vec3::new(
            (i % 97 - 48) * 500 * KM,
            (i % 89 - 44) * 500 * KM,
            (i % 83 - 41) * 500 * KM,
        );
        let inserted = octree.root.insert(EntityId::new(i as u32, 0), position);
        assert!(inserted, "all positions lie within the root cube");
    }
    assert_eq!(count_stored(&octree.root), 1000, "all objects should be stored");

    octree.root.clear();
    assert_eq!(count_stored(&octree.root), 0, "clear should drop every object");
    assert!(octree.root.children.is_none(), "clear should drop the children");
}

#[test]
fn test_insert_outside_root_cube() {
    // A position outside the root cube is rejected: the body is dropped
    // from the index only (the caller keeps integrating it)
    let mut octree = SpatialOctree::default();
    let far = Vec3::new(60_000 * KM, 0, 0);
    let inserted = octree.root.insert(EntityId::new(1, 0), far);
    assert!(!inserted, "a position outside the root cube is not indexed");
    assert_eq!(count_stored(&octree.root), 0);
}

#[test]
fn test_tick_consumes_colliding_pair() {
    // Two heavy bodies at the same position collide on the first tick:
    // both are destroyed and fragments spawn at the collision point
    let mut sim = Simulation::new(42);
    let position = Vec3::new(6771 * KM, 0, 0);
    let a = sim
        .spawn_body(
            OrbitalState::new(position, Vec3::new(7_500_000, 0, 0), 1000 * KG),
            PhysicsObject::satellite(1000 * KG),
        )
        .unwrap();
    let b = sim
        .spawn_body(
            OrbitalState::new(position, Vec3::new(-7_500_000, 0, 0), 1000 * KG),
            PhysicsObject::satellite(1000 * KG),
        )
        .unwrap();

    // Freeze the integrator so the bodies stay put for the detection pass
    sim.time.pause();
    let spawned = sim.tick(1000);

    assert!(sim.pairs.pairs.len() >= 1, "the pair should be detected");
    assert!(sim.store.get(a).is_none(), "first body should be consumed");
    assert!(sim.store.get(b).is_none(), "second body should be consumed");
    assert_eq!(spawned.len(), 2, "the scenario spawns exactly 2 fragments");
    for id in &spawned {
        let body = sim.store.get(*id).expect("fragment should be live");
        assert_eq!(body.orbital.position, position, "fragments start at the collision point");
        assert_eq!(body.orbital.mass_mg, 100 * KG, "each fragment carries 100 kg");
        let tag = body.debris.expect("fragments are debris");
        assert_eq!(tag.generation, 1, "debris of two original bodies is generation 1");
    }
}

#[test]
fn test_zero_mass_pair_is_skipped() {
    // A confirmed pair with zero combined mass aborts with no state change
    let mut sim = Simulation::new(7);
    let position = Vec3::new(6771 * KM, 0, 0);
    let a = sim
        .spawn_body(
            OrbitalState::new(position, Vec3::zero(), 0),
            PhysicsObject::satellite(0),
        )
        .unwrap();
    let b = sim
        .spawn_body(
            OrbitalState::new(position, Vec3::zero(), 0),
            PhysicsObject::satellite(0),
        )
        .unwrap();

    sim.time.pause();
    let spawned = sim.tick(1000);

    assert!(spawned.is_empty(), "no fragments from a massless pair");
    assert!(sim.store.get(a).is_some(), "first body survives the aborted pair");
    assert!(sim.store.get(b).is_some(), "second body survives the aborted pair");
}

#[test]
fn test_distant_bodies_do_not_collide() {
    // Bodies far apart yield no pairs and no debris
    let mut sim = Simulation::new(3);
    sim.spawn_body(
        OrbitalState::new(
            Vec3::new(6771 * KM, 0, 0),
            Vec3::new(0, 7_660_000, 0),
            1000 * KG,
        ),
        PhysicsObject::satellite(1000 * KG),
    )
    .unwrap();
    sim.spawn_body(
        OrbitalState::new(
            Vec3::new(-8000 * KM, 0, 0),
            Vec3::new(0, -7_000_000, 0),
            1000 * KG,
        ),
        PhysicsObject::satellite(1000 * KG),
    )
    .unwrap();

    let spawned = sim.tick(1000);
    assert!(sim.pairs.pairs.is_empty(), "distant bodies should not pair");
    assert!(spawned.is_empty(), "no debris without a collision");
    assert_eq!(sim.store.live_count(), 2, "both bodies live on");
}

#[test]
fn test_spawn_rejects_out_of_range_state() {
    // A state outside the kernel's numeric range is rejected at spawn
    let mut sim = Simulation::new(1);
    let too_heavy = sim.spawn_body(
        OrbitalState::new(Vec3::new(6771 * KM, 0, 0), Vec3::zero(), u64::MAX),
        PhysicsObject::satellite(1000 * KG),
    );
    assert!(too_heavy.is_none(), "an over-heavy body is rejected");
    assert_eq!(sim.store.live_count(), 0);
}

#[test]
fn test_stale_identity_is_detected() {
    // A generational identity goes stale at despawn and is never confused
    // with a newer body in the same slot
    let mut store = Store::new();
    let body = Body {
        orbital: OrbitalState::new(Vec3::new(6771 * KM, 0, 0), Vec3::zero(), 1000 * KG),
        physics: PhysicsObject::satellite(1000 * KG),
        debris: None,
        indexed_position: None,
    };
    let id = store.spawn(body);
    assert!(store.get(id).is_some());

    assert!(store.despawn(id), "a live body is despawned once");
    assert!(store.get(id).is_none(), "the old identity is stale");
    assert!(!store.despawn(id), "a stale identity despawns nothing");

    let id2 = store.spawn(body);
    assert_eq!(id2.index, id.index, "the slot is reused");
    assert_ne!(id2.generation, id.generation, "with a fresh generation");
    assert!(store.get(id).is_none(), "the stale identity still resolves to nothing");
    assert!(store.get(id2).is_some());
}

#[test]
fn test_skip_interval_thresholds() {
    // The deterministic load-shedding rule: every tick up to 50,000
    // bodies, every 2nd to 100,000, every 3rd beyond
    assert_eq!(skip_interval(10), 1);
    assert_eq!(skip_interval(50_000), 1);
    assert_eq!(skip_interval(50_001), 2);
    assert_eq!(skip_interval(100_000), 2);
    assert_eq!(skip_interval(100_001), 3);
}

#[test]
fn test_simulation_time_advance() {
    // The clock scales wall time by the speed multiplier, rescaling above
    // an hour per second, and never moves while paused
    let mut time = SimulationTime::default();
    assert_eq!(time.speed_multiplier, 3600);

    time.advance(1000); // one wall second at 3600x
    assert_eq!(time.current_ms, 3_600_000);

    time.set_speed(7200); // above the 3600 threshold: delta * speed / 60
    time.advance(1000);
    assert_eq!(time.current_ms, 3_600_000 + 120_000);

    time.pause();
    time.advance(1000);
    assert_eq!(time.current_ms, 3_720_000, "a paused clock does not move");

    time.resume();
    time.set_speed(1);
    time.advance(500);
    assert_eq!(time.current_ms, 3_720_500);
}

#[test]
fn test_random_range_bounds() {
    // The random source honours the requested half-open range, and a
    // single-valued range forces the one possible answer
    let mut rng = rng_from_seed(99);
    for _ in 0..200 {
        let r = rng_range_u64(&mut rng, 10, 20);
        assert!(r >= 10 && r < 20, "sample out of range: {}", r);
    }
    assert_eq!(rng_range_u64(&mut rng, 5, 6), 5);
}

#[test]
fn test_paused_clock_freezes_only_integrator() {
    // Pausing freezes the integrator; collision detection still runs
    let mut sim = Simulation::new(5);
    let position = Vec3::new(7000 * KM, 0, 0);
    let velocity = Vec3::new(0, 7_500_000, 0);
    let a = sim
        .spawn_body(
            OrbitalState::new(position, velocity, 1000 * KG),
            PhysicsObject::satellite(1000 * KG),
        )
        .unwrap();
    sim.time.pause();
    sim.tick(1000);
    let body = sim.store.get(a).unwrap();
    assert_eq!(body.orbital.position, position, "a paused body does not move");
    assert_eq!(body.orbital.velocity, velocity);

    sim.time.resume();
    sim.tick(1000);
    let moved = sim.store.get(a).unwrap();
    assert_ne!(moved.orbital.position, position, "an unpaused body moves");
}

#[test]
fn test_debris_mechanics_integration() {
    // A cascade seed: the fragments of a collision re-enter the store and
    // the index, and keep orbiting on later ticks
    let mut sim = Simulation::new(1234);
    let position = Vec3::new(6771 * KM, 0, 0);
    sim.spawn_body(
        OrbitalState::new(position, Vec3::new(0, 7_500_000, 0), 4000 * KG),
        PhysicsObject::satellite(4000 * KG),
    )
    .unwrap();
    sim.spawn_body(
        OrbitalState::new(position, Vec3::new(0, -7_500_000, 0), 4000 * KG),
        PhysicsObject::satellite(4000 * KG),
    )
    .unwrap();

    sim.time.pause();
    let spawned = sim.tick(1000);
    assert!(spawned.len() >= 2, "the collision spawns fragments");
    assert_eq!(
        sim.store.live_count(),
        spawned.len(),
        "only the fragments remain after the parents are consumed"
    );

    // Fragments keep being integrated on later ticks
    sim.time.resume();
    let first = spawned[0];
    let before = sim.store.get(first).unwrap().orbital.position;
    sim.tick(1000);
    let after = sim.store.get(first).unwrap().orbital.position;
    assert_ne!(before, after, "fragments move under gravity on later ticks");
}

#[test]
fn test_end_to_end_simulation_cycle() {
    // Several well-separated satellites tick through the whole pipeline
    // without losses and with energy staying sane
    let constants = Constants::default();
    let mut sim = Simulation::new(2024);
    let mut ids: Vec<EntityId> = Vec::new();
    for k in 0..5u64 {
        let altitude = 400 + 200 * k;
        let radius_km = (constants.body_radius_km + altitude) as i64;
        let v = constants.circular_velocity_mm_s(altitude);
        let id = sim
            .spawn_body(
                OrbitalState::new(
                    Vec3::new(radius_km * KM, 0, 0),
                    Vec3::new(0, v as i64, 0),
                    1000 * KG,
                ),
                PhysicsObject::satellite(1000 * KG),
            )
            .unwrap();
        ids.push(id);
    }

    for _ in 0..10 {
        sim.tick(1000);
    }

    assert_eq!(sim.store.live_count(), 5, "well-separated satellites all survive");
    for id in &ids {
        let body = sim.store.get(*id).unwrap();
        let total = body.orbital.total_energy_j(constants.gravitational_parameter);
        assert!(total < 0, "every satellite stays bound");
    }
    assert_eq!(sim.tick_index, 10);
}

#[test]
fn test_physics_and_collision_integration() {
    // Test that physics updates and collision handling work together: two
    // bodies placed at the same point keep conserving energy while they
    // integrate
    let constants = Constants::default();
    let position = Vec3::new(6771 * KM, 0, 0);
    let speed = constants.circular_velocity_mm_s(400) as i64;

    let mut state1 = OrbitalState::new(position, Vec3::new(0, speed, 0), 1000 * KG);
    let mut state2 = OrbitalState::new(position, Vec3::new(0, speed, 0), 1000 * KG);

    let initial_energy1 = state1.total_energy_j(constants.gravitational_parameter) as f64;
    let initial_energy2 = state2.total_energy_j(constants.gravitational_parameter) as f64;

    // Run physics for a few steps of 0.1 seconds
    for _ in 0..10 {
        let (p1, v1) = kessler_simulator::physics::EulerIntegrator::integrate(
            state1.position,
            state1.velocity,
            100,
            constants.gravitational_parameter,
        );
        state1.position = p1;
        state1.velocity = v1;
        let (p2, v2) = kessler_simulator::physics::EulerIntegrator::integrate(
            state2.position,
            state2.velocity,
            100,
            constants.gravitational_parameter,
        );
        state2.position = p2;
        state2.velocity = v2;
    }

    let final_energy1 = state1.total_energy_j(constants.gravitational_parameter) as f64;
    let final_energy2 = state2.total_energy_j(constants.gravitational_parameter) as f64;
    assert!((initial_energy1 - final_energy1).abs() < 0.01 * initial_energy1.abs());
    assert!((initial_energy2 - final_energy2).abs() < 0.01 * initial_energy2.abs());
}

#[test]
fn test_collision_cascade_simulation() {
    // Test that a collision creates debris that can cause more collisions:
    // the fragments of a first collision are live, indexed on the next tick
    // and themselves carry collision radii
    let constants = Constants::default();
    let collision_point = Vec3::new(6771 * KM, 0, 0);
    assert!(
        collision_point.norm() > constants.body_radius_km * 1_000_000,
        "Collision should occur above the surface"
    );

    let mut sim = Simulation::new(77);
    sim.time.pause();
    sim.spawn_body(
        OrbitalState::new(collision_point, Vec3::new(0, 7_500_000, 0), 2000 * KG),
        PhysicsObject::satellite(2000 * KG),
    )
    .unwrap();
    sim.spawn_body(
        OrbitalState::new(collision_point, Vec3::new(0, -7_500_000, 0), 2000 * KG),
        PhysicsObject::satellite(2000 * KG),
    )
    .unwrap();

    let spawned = sim.tick(1000);
    assert!(spawned.len() >= 2, "the first collision seeds the cascade");
    for id in &spawned {
        let body = sim.store.get(*id).unwrap();
        assert!(
            body.physics.collision_radius_mm > 0,
            "fragments can collide in turn"
        );
    }
}

#[test]
fn test_multiple_satellites_physics() {
    // Test physics with multiple satellites at different altitudes
    let constants = Constants::default();

    let mut states: Vec<OrbitalState> = [400u64, 500, 600, 700]
        .iter()
        .map(|&altitude| {
            let radius_km = (constants.body_radius_km + altitude) as i64;
            let v = constants.circular_velocity_mm_s(altitude) as i64;
            OrbitalState::new(Vec3::new(radius_km * KM, 0, 0), Vec3::new(0, v, 0), 1000 * KG)
        })
        .collect();

    let initial_energies: Vec<f64> = states
        .iter()
        .map(|s| s.total_energy_j(constants.gravitational_parameter) as f64)
        .collect();

    // Run physics for all objects, 10 steps of 0.1 seconds
    for _ in 0..10 {
        for state in states.iter_mut() {
            let (p, v) = kessler_simulator::physics::EulerIntegrator::integrate(
                state.position,
                state.velocity,
                100,
                constants.gravitational_parameter,
            );
            state.position = p;
            state.velocity = v;
        }
    }

    // Each object's energy should be conserved independently
    for (i, state) in states.iter().enumerate() {
        let final_energy = state.total_energy_j(constants.gravitational_parameter) as f64;
        assert!(
            (initial_energies[i] - final_energy).abs() < 0.01 * initial_energies[i].abs(),
            "energy of satellite {} should be conserved",
            i
        );
    }
}

#[test]
fn test_satellite_identity() {
    // The catalogue identity of an active satellite
    let sat = kessler_simulator::bodies::Satellite::new(format!("KESTREL-1"), 43013, true);
    assert_eq!(sat.name, "KESTREL-1");
    assert_eq!(sat.norad_id, 43013);
    assert!(sat.active);
}

#[test]
fn test_injection_count_rule() {
    // The injection batch is the given percentage of the existing debris,
    // rounded up, and never empty
    assert_eq!(injection_count(0, 100), 1, "an empty population still gets one piece");
    assert_eq!(injection_count(100, 100), 1, "one percent of 100 is 1");
    assert_eq!(injection_count(101, 100), 2, "rounding is upward");
    assert_eq!(injection_count(1000, 100), 10);
    assert_eq!(injection_count(1000, 250), 25, "two and a half percent of 1000");
}

#[test]
fn test_decay_probability_rule() {
    // The decay chance is zero at and above the decay altitude and rises
    // linearly toward the center
    assert_eq!(decay_probability_permille(200, 200), 0);
    assert_eq!(decay_probability_permille(300, 200), 0);
    assert_eq!(decay_probability_permille(100, 200), 500, "half way down is a coin flip");
    assert_eq!(decay_probability_permille(0, 200), 1000, "at the center decay is certain");
    assert!(decay_roll_hits(500, 499));
    assert!(!decay_roll_hits(500, 500));
}
