// Randomized tests for collision detection: no false negatives in octree
// queries, octree structure under random inserts, and pair uniqueness.
// Each case runs over many seeded pseudo-random inputs.

use kessler_simulator::ids::{canonical_pair, pair_key, EntityId};
use kessler_simulator::math::Vec3;
use kessler_simulator::octree::OctreeNode;
use rand::Rng;
use rand::SeedableRng;

const KM: i64 = 1_000_000;

#[test]
fn test_octree_insertion_and_query() {
    // Test that objects inserted into the octree can be queried back
    let mut rng = rand::rngs::StdRng::seed_from_u64(11);
    for _ in 0..50 {
        let x: i64 = rng.gen_range(-1000..1000) * KM;
        let y: i64 = rng.gen_range(-1000..1000) * KM;
        let z: i64 = rng.gen_range(-1000..1000) * KM;
        let radius: i64 = rng.gen_range(10..100) * KM;

        let mut octree = OctreeNode::new(Vec3::zero(), 2000 * KM, 6, 0);
        let entity = EntityId::new(1, 0);
        let position = Vec3::new(x, y, z);

        // Insert object: positions within bounds must be accepted
        let inserted = octree.insert(entity, position);
        assert!(inserted, "Object within bounds should be inserted");

        // Query for object
        let mut results = Vec::new();
        octree.query_sphere(&position, radius, &mut results);

        // Should find the object
        assert!(results.contains(&entity), "Query should find inserted object");
    }
}

#[test]
fn test_no_false_positives_distant_objects() {
    // Test that queries near one object do not sweep in everything
    let mut rng = rand::rngs::StdRng::seed_from_u64(23);
    for _ in 0..50 {
        let p1 = Vec3::new(
            rng.gen_range(-1000..1000) * KM,
            rng.gen_range(-1000..1000) * KM,
            rng.gen_range(-1000..1000) * KM,
        );
        let p2 = Vec3::new(
            rng.gen_range(-1000..1000) * KM,
            rng.gen_range(-1000..1000) * KM,
            rng.gen_range(-1000..1000) * KM,
        );
        let radius: i64 = rng.gen_range(1..50) * KM;

        let mut octree = OctreeNode::new(Vec3::zero(), 2000 * KM, 6, 0);
        octree.insert(EntityId::new(1, 0), p1);
        octree.insert(EntityId::new(2, 0), p2);

        let mut results = Vec::new();
        octree.query_sphere(&p1, radius, &mut results);

        // The query is conservative, but with only two stored objects it can
        // never return more than both
        assert!(
            results.len() <= 2,
            "Query should not return too many distant objects"
        );
    }
}

#[test]
fn test_collision_pair_uniqueness() {
    // Test that collision pairs are unique (no duplicates in either order)
    let mut rng = rand::rngs::StdRng::seed_from_u64(37);
    for _ in 0..100 {
        let i1: u32 = rng.gen_range(0..100);
        let i2: u32 = rng.gen_range(0..100);
        if i1 == i2 {
            continue;
        }
        let entity1 = EntityId::new(i1, 0);
        let entity2 = EntityId::new(i2, 0);

        let mut checked_pairs = std::collections::HashSet::new();

        // Create pair (always smaller index first)
        let pair = canonical_pair(entity1, entity2);
        checked_pairs.insert(pair_key(&pair));
        assert_eq!(checked_pairs.len(), 1, "Should have one pair");

        // Try to add same pair in reverse order
        let reverse_pair = canonical_pair(entity2, entity1);
        checked_pairs.insert(pair_key(&reverse_pair));

        // Should still have only one pair (deduplicated)
        assert_eq!(
            checked_pairs.len(),
            1,
            "Reverse pair should be deduplicated"
        );
    }
}

#[test]
fn test_octree_query_completeness() {
    // Test that octree queries return all objects within radius (no false
    // negatives)
    let mut rng = rand::rngs::StdRng::seed_from_u64(41);
    for _ in 0..50 {
        let center = Vec3::new(
            rng.gen_range(-500..500) * KM,
            rng.gen_range(-500..500) * KM,
            rng.gen_range(-500..500) * KM,
        );
        let radius: i64 = rng.gen_range(10..100) * KM;

        let mut octree = OctreeNode::new(Vec3::zero(), 2000 * KM, 6, 0);

        // Insert multiple objects near the center
        let mut expected_entities = Vec::new();
        for i in 0..10i64 {
            let d = (i - 5) * 5 * KM;
            let offset = Vec3::new(d, d, d);
            let position = center.add(&offset);
            let dist_sq = offset.norm_sq();

            if dist_sq <= (radius as i128) * (radius as i128) {
                let entity = EntityId::new(i as u32, 0);
                octree.insert(entity, position);
                expected_entities.push(entity);
            }
        }

        // Query for objects
        let mut results = Vec::new();
        octree.query_sphere(&center, radius, &mut results);

        // Should find all objects within radius
        for expected in &expected_entities {
            assert!(
                results.contains(expected),
                "Query should find all objects within radius"
            );
        }
    }
}
