// Unit tests for collision detection functionality: octree insertion and
// querying, sphere-cube intersection, spatial partitioning and pair
// deduplication. Distances are millimetres: one kilometre is 10^6 mm.

use kessler_simulator::ids::{canonical_pair, pair_key, EntityId};
use kessler_simulator::math::Vec3;
use kessler_simulator::octree::{OctreeNode, Octants, SpatialOctree};

const KM: i64 = 1_000_000;

fn entity(i: u32) -> EntityId {
    EntityId::new(i, 0)
}

fn point_km(x: i64, y: i64, z: i64) -> Vec3 {
    Vec3::new(x * KM, y * KM, z * KM)
}

#[test]
fn test_octree_insertion() {
    // Test basic octree insertion
    let mut octree = OctreeNode::new(Vec3::zero(), 1000 * KM, 6, 0);

    let entity1 = entity(1);
    let position1 = point_km(100, 200, 300);

    let inserted = octree.insert(entity1, position1);
    assert!(inserted, "Object should be inserted into octree");
    assert_eq!(octree.objects.len(), 1, "Octree should contain one object");
}

#[test]
fn test_octree_query_sphere() {
    // Test querying objects within a sphere
    let mut octree = OctreeNode::new(Vec3::zero(), 1000 * KM, 6, 0);

    let entity1 = entity(1);
    let entity2 = entity(2);
    let entity3 = entity(3);

    // Insert objects at different positions
    octree.insert(entity1, point_km(100, 100, 100));
    octree.insert(entity2, point_km(200, 200, 200));
    octree.insert(entity3, point_km(5000, 5000, 5000)); // Far away (outside the cube)

    // Query for objects near position 1
    let mut results = Vec::new();
    octree.query_sphere(&point_km(100, 100, 100), 200 * KM, &mut results);

    // Should find entity1 and possibly entity2 (if within radius)
    assert!(results.contains(&entity1), "Query should find entity1");
    assert!(results.len() >= 1, "Query should return at least one result");
}

#[test]
fn test_octree_subdivision() {
    // Test that octree subdivides when it has too many objects
    let mut octree = OctreeNode::new(Vec3::zero(), 1000 * KM, 6, 0);

    // Insert more than the per-node capacity (4) of objects
    for i in 0..5 {
        let e = entity(i as u32);
        let position = point_km(i * 10, 0, 0);
        octree.insert(e, position);
    }

    // Octree should have subdivided
    assert!(
        octree.children.is_some(),
        "Octree should subdivide with many objects"
    );
}

#[test]
fn test_sphere_intersects_cube() {
    // Test sphere-cube intersection detection
    let octree = OctreeNode::new(Vec3::zero(), 100 * KM, 6, 0);

    // Sphere that intersects cube
    let sphere_center = point_km(50, 50, 50);
    let sphere_radius = 100 * KM;
    assert!(
        octree.sphere_intersects_cube(&sphere_center, sphere_radius),
        "Sphere should intersect cube"
    );

    // Sphere that doesn't intersect cube
    let far_sphere_center = point_km(500, 500, 500);
    assert!(
        !octree.sphere_intersects_cube(&far_sphere_center, 10 * KM),
        "Distant sphere should not intersect cube"
    );
}

#[test]
fn test_contains_point() {
    // Test point containment check
    let octree = OctreeNode::new(Vec3::zero(), 100 * KM, 6, 0);

    // Point inside cube
    let inside_point = point_km(50, 50, 50);
    assert!(
        octree.contains_point(&inside_point),
        "Point should be inside cube"
    );

    // Point outside cube
    let outside_point = point_km(200, 200, 200);
    assert!(
        !octree.contains_point(&outside_point),
        "Point should be outside cube"
    );

    // Point on boundary
    let boundary_point = point_km(100, 0, 0);
    assert!(
        octree.contains_point(&boundary_point),
        "Point on boundary should be inside"
    );
}

#[test]
fn test_collision_detection_same_position() {
    // Test collision detection for objects at same position
    let mut octree = SpatialOctree::default();

    // Create two objects at the same position
    let entity1 = entity(1);
    let entity2 = entity(2);

    let position = point_km(6771, 0, 0); // 400 km altitude

    octree.root.insert(entity1, position);
    octree.root.insert(entity2, position);

    // Query for collisions
    let mut results = Vec::new();
    octree.root.query_sphere(&position, 1 * KM, &mut results);

    // Should find both objects
    assert!(results.contains(&entity1), "Should find entity1");
    assert!(results.contains(&entity2), "Should find entity2");
}

#[test]
fn test_collision_detection_distant_objects() {
    // Test that octree spatial partitioning separates distant objects
    let mut octree = SpatialOctree::default();

    let entity1 = entity(1);
    let entity2 = entity(2);

    // Objects far apart (different octants)
    let position1 = point_km(1000, 1000, 1000);
    let position2 = point_km(40000, 40000, 40000); // Different octant

    octree.root.insert(entity1, position1);
    octree.root.insert(entity2, position2);

    // Query near position1 with moderate radius
    let mut results = Vec::new();
    octree.root.query_sphere(&position1, 10000 * KM, &mut results);

    // Should find entity1
    assert!(results.contains(&entity1), "Should find entity1");
    // Note: query_sphere doesn't filter by exact distance, only by node intersection
    // This test verifies octree structure works, collision system does distance filtering
}

#[test]
fn test_octree_clear() {
    // Test that octree can be cleared
    let mut octree = OctreeNode::new(Vec3::zero(), 1000 * KM, 6, 0);

    // Insert some objects
    for i in 0..5 {
        let e = entity(i as u32);
        octree.insert(e, point_km(i * 10, 0, 0));
    }

    assert!(
        octree.objects.len() > 0 || octree.children.is_some(),
        "Octree should have objects or children"
    );

    // Clear octree
    octree.clear();

    assert_eq!(
        octree.objects.len(),
        0,
        "Octree should have no objects after clear"
    );
    assert!(
        octree.children.is_none(),
        "Octree should have no children after clear"
    );
}

#[test]
fn test_collision_pair_deduplication() {
    // Test that collision pairs are not duplicated
    let mut checked_pairs = std::collections::HashSet::new();

    let entity1 = entity(1);
    let entity2 = entity(2);

    // Create pair (entity1, entity2), canonicalized lower index first
    let pair1 = canonical_pair(entity1, entity2);

    // Add pair to set
    checked_pairs.insert(pair_key(&pair1));

    // Try to add same pair in reverse order
    let pair2 = canonical_pair(entity2, entity1);

    // Should already be in set (deduplicated)
    assert!(
        checked_pairs.contains(&pair_key(&pair2)),
        "Reverse pair should be deduplicated"
    );
    assert_eq!(checked_pairs.len(), 1, "Should only have one unique pair");
}

#[test]
fn test_octree_boundary_conditions() {
    // Test octree behavior at boundaries
    let mut octree = OctreeNode::new(Vec3::zero(), 100 * KM, 6, 0);

    // Insert object exactly at boundary
    let e = entity(1);
    let boundary_position = point_km(100, 100, 100);

    let inserted = octree.insert(e, boundary_position);
    assert!(inserted, "Object at boundary should be inserted");

    // Query at boundary
    let mut results = Vec::new();
    octree.query_sphere(&boundary_position, 1 * KM, &mut results);
    assert!(results.contains(&e), "Should find object at boundary");
}

#[test]
fn test_multiple_objects_same_octant() {
    // Test multiple objects in the same octant
    let mut octree = OctreeNode::new(Vec3::zero(), 1000 * KM, 6, 0);

    // Insert multiple objects close together
    for i in 0..10 {
        let e = entity(i as u32);
        let position = point_km(100 + i, 100, 100);
        octree.insert(e, position);
    }

    // Query should find multiple objects
    let mut results = Vec::new();
    octree.query_sphere(&point_km(105, 100, 100), 50 * KM, &mut results);

    assert!(
        results.len() > 1,
        "Should find multiple objects in same region"
    );
}

fn subtree_depth_ok(node: &OctreeNode, current_depth: u32, max_depth: u32) -> bool {
    if current_depth > max_depth {
        return false;
    }
    match &node.children {
        Some(b) => {
            let oct: &Octants = b;
            subtree_depth_ok(&oct.c0, current_depth + 1, max_depth)
                && subtree_depth_ok(&oct.c1, current_depth + 1, max_depth)
                && subtree_depth_ok(&oct.c2, current_depth + 1, max_depth)
                && subtree_depth_ok(&oct.c3, current_depth + 1, max_depth)
                && subtree_depth_ok(&oct.c4, current_depth + 1, max_depth)
                && subtree_depth_ok(&oct.c5, current_depth + 1, max_depth)
                && subtree_depth_ok(&oct.c6, current_depth + 1, max_depth)
                && subtree_depth_ok(&oct.c7, current_depth + 1, max_depth)
        }
        None => true,
    }
}

#[test]
fn test_octree_depth_limiting() {
    // Test that octree doesn't subdivide beyond max depth
    let max_depth = 3;
    let mut octree = OctreeNode::new(Vec3::zero(), 1000 * KM, max_depth, 0);

    // Insert many objects to force subdivision
    for i in 0..20 {
        let e = entity(i as u32);
        let position = point_km(i * 10, 0, 0);
        octree.insert(e, position);
    }

    // Check that depth doesn't exceed max_depth
    assert!(
        subtree_depth_ok(&octree, 0, max_depth),
        "Depth should not exceed max_depth"
    );
}
