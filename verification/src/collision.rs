//! Collision detection over the spatial index.
//!
//! Each tick the detector queries the octree around every live body with
//! twice its own collision radius, canonicalizes every candidate pair,
//! skips pairs already checked this tick, and confirms a pair exactly when
//! the Euclidean distance between the two live positions is at most the
//! sum of the two collision radii. At high population counts whole passes
//! are skipped on a deterministic tick rule, so the worst-case cost stays
//! bounded without nondeterminism.
//!
//! The result is proved sound (every reported pair is truly colliding,
//! stored canonically, no pair reported twice) and complete: when the
//! index holds every live body at its live position, every truly colliding
//! pair is reported.

use vstd::prelude::*;
use vstd::hash_set::HashSetWithView;

use crate::bodies::spec_state_valid;
use crate::ids::{CollisionPair, EntityId, canonical_pair, pair_key, spec_canonical_pair,
    spec_pair_key};
use crate::math::spec_dist_sq;
use crate::octree::OctreeNode;
use crate::store::{Store, spec_live_count};

verus! {

/// Largest collision radius a tracked body may declare (millimetres).
pub const RADIUS_LIMIT_MM: u64 = 1_000_000_000_000;

/// This tick's confirmed collision pairs, freshly built every detection
/// pass and consumed by the debris generator; never kept across ticks.
pub struct CollisionPairs {
    pub pairs: Vec<CollisionPair>,
}

/// A record of one collision, for consumers that track events across
/// ticks: when and where it happened, who was involved, and what debris it
/// left behind.
pub struct CollisionEvent {
    /// Lineage identifier of the collision.
    pub id: u32,
    /// Simulation time of the collision, in milliseconds.
    pub time_ms: u64,
    /// The collision point, in millimetres.
    pub position: crate::math::Vec3,
    /// The two bodies that collided.
    pub objects_involved: Vec<EntityId>,
    /// The fragments the collision spawned.
    pub debris_generated: Vec<EntityId>,
}

impl CollisionEvent {
    pub fn new(id: u32, time_ms: u64, position: crate::math::Vec3, objects_involved: Vec<
        EntityId,
    >) -> (e: CollisionEvent)
        ensures
            e.id == id,
            e.time_ms == time_ms,
            e.position == position,
            e.objects_involved == objects_involved,
            e.debris_generated@.len() == 0,
    {
        CollisionEvent { id, time_ms, position, objects_involved, debris_generated: Vec::new() }
    }
}

/// How many ticks pass between detection passes at a given population:
/// above 100,000 bodies every third tick is checked, above 50,000 every
/// second, otherwise every tick.
pub open spec fn spec_skip_interval(count: nat) -> nat {
    if count > 100_000 {
        3
    } else if count > 50_000 {
        2
    } else {
        1
    }
}

/// Whether the detection pass runs on this tick.
pub open spec fn spec_should_check(tick_index: u64, count: nat) -> bool {
    tick_index as nat % spec_skip_interval(count) == 0
}

/// Two live, distinct bodies truly collide when their center distance is
/// at most the sum of their collision radii.
pub open spec fn spec_confirmed(s: Store, a: EntityId, b: EntityId) -> bool {
    &&& s.live(a)
    &&& s.live(b)
    &&& a != b
    &&& spec_dist_sq(s.body_of(a).orbital.position, s.body_of(b).orbital.position) <= (s.body_of(
        a,
    ).physics.collision_radius_mm + s.body_of(b).physics.collision_radius_mm) * (s.body_of(
        a,
    ).physics.collision_radius_mm + s.body_of(b).physics.collision_radius_mm)
}

/// Every live body has a valid orbital state and a bounded collision
/// radius: what the detector's arithmetic needs.
pub open spec fn spec_store_geometry_ok(s: Store) -> bool {
    forall|id: EntityId|
        #[trigger] s.live(id) ==> spec_state_valid(s.body_of(id).orbital) && s.body_of(
            id,
        ).physics.collision_radius_mm <= RADIUS_LIMIT_MM
}

/// The spatial index holds every live body at its live position.
pub open spec fn spec_synced(s: Store, root: OctreeNode) -> bool {
    forall|id: EntityId|
        #[trigger] s.live(id) ==> root.contents().contains(
            (id, s.body_of(id).orbital.position),
        )
}

/// Whether the ordered pair `(a, b)` stands in the list.
pub open spec fn spec_in_pairs(pairs: Seq<CollisionPair>, a: EntityId, b: EntityId) -> bool {
    exists|k: int| 0 <= k < pairs.len() && pairs[k] == (CollisionPair { first: a, second: b })
}

/// Whether the unordered pair `{a, b}` stands in the list in canonical
/// order.
pub open spec fn spec_reported(pairs: Seq<CollisionPair>, a: EntityId, b: EntityId) -> bool {
    if a.index < b.index {
        spec_in_pairs(pairs, a, b)
    } else {
        spec_in_pairs(pairs, b, a)
    }
}

/// A pair stays in the list when more pairs are appended.
proof fn lemma_in_pairs_push(pairs: Seq<CollisionPair>, p: CollisionPair, a: EntityId, b: EntityId)
    requires
        spec_in_pairs(pairs, a, b),
    ensures
        spec_in_pairs(pairs.push(p), a, b),
{
    let k = choose|k: int|
        0 <= k < pairs.len() && pairs[k] == (CollisionPair { first: a, second: b });
    assert(pairs.push(p)[k] == (CollisionPair { first: a, second: b }));
}

/// A collision is symmetric: if `a` collides with `b`, `b` collides with
/// `a`.
pub proof fn lemma_confirmed_symmetric(s: Store, a: EntityId, b: EntityId)
    requires
        spec_confirmed(s, a, b),
    ensures
        spec_confirmed(s, b, a),
{
    crate::math::lemma_dist_sq_symmetric(
        s.body_of(a).orbital.position,
        s.body_of(b).orbital.position,
    );
}

/// Compute the skip interval for a population count.
pub fn skip_interval(count: usize) -> (n: u64)
    ensures
        n == spec_skip_interval(count as nat),
        1 <= n <= 3,
{
    if count > 100_000 {
        3
    } else if count > 50_000 {
        2
    } else {
        1
    }
}

/// Run one detection pass. The returned set is empty on a skipped tick;
/// otherwise it holds exactly the truly colliding pairs: every reported
/// pair is confirmed by exact distance, stored lower-index first, reported
/// once — and, as long as the index holds every live body at its live
/// position, no colliding pair is missed.
pub fn detect_collisions(store: &Store, octree: &OctreeNode, tick_index: u64) -> (out:
    CollisionPairs)
    requires
        octree.wf(),
        spec_store_geometry_ok(*store),
        store.wf(),
    ensures
        !spec_should_check(tick_index, spec_live_count(store.slots@)) ==> out.pairs@.len() == 0,
        forall|k: int|
            0 <= k < out.pairs@.len() ==> spec_confirmed(
                *store,
                (#[trigger] out.pairs@[k]).first,
                out.pairs@[k].second,
            ) && out.pairs@[k].first.index < out.pairs@[k].second.index,
        forall|k1: int, k2: int|
            0 <= k1 < k2 < out.pairs@.len() ==> spec_pair_key(#[trigger] out.pairs@[k1])
                != spec_pair_key(#[trigger] out.pairs@[k2]),
        (spec_should_check(tick_index, spec_live_count(store.slots@)) && spec_synced(
            *store,
            *octree,
        )) ==> forall|a: EntityId, b: EntityId|
            #[trigger] spec_confirmed(*store, a, b) ==> spec_reported(out.pairs@, a, b),
{
    broadcast use vstd::std_specs::hash::group_hash_axioms;

    let count = store.live_count();
    let interval = skip_interval(count);
    if tick_index % interval != 0 {
        return CollisionPairs { pairs: Vec::new() };
    }
    let ghost s = *store;
    let mut pairs: Vec<CollisionPair> = Vec::new();
    let mut checked: HashSetWithView<u64> = HashSetWithView::new();
    let n = store.slot_len();
    let mut i: usize = 0;
    while i < n
        invariant
            n == s.slots@.len(),
            i <= n,
            s == *store,
            octree.wf(),
            store.wf(),
            spec_store_geometry_ok(s),
            // soundness and canonical order
            forall|k: int|
                0 <= k < pairs@.len() ==> spec_confirmed(
                    s,
                    (#[trigger] pairs@[k]).first,
                    pairs@[k].second,
                ) && pairs@[k].first.index < pairs@[k].second.index,
            // no duplicates
            forall|k1: int, k2: int|
                0 <= k1 < k2 < pairs@.len() ==> spec_pair_key(#[trigger] pairs@[k1])
                    != spec_pair_key(#[trigger] pairs@[k2]),
            forall|k: int|
                0 <= k < pairs@.len() ==> checked@.contains(
                    spec_pair_key(#[trigger] pairs@[k]) as u64,
                ),
            // whatever was checked is settled: if it collides, it is listed
            forall|a: EntityId, b: EntityId|
                s.live(a) && s.live(b) && a.index < b.index && checked@.contains(
                    spec_pair_key(#[trigger] spec_canonical_pair(a, b)) as u64,
                ) ==> (spec_confirmed(s, a, b) ==> spec_in_pairs(pairs@, a, b)),
            // progress: pairs whose larger-radius member was scanned are settled
            spec_synced(s, *octree) ==> forall|a: EntityId, b: EntityId|
                #[trigger] spec_confirmed(s, a, b) && ((a.index < i && s.body_of(
                    a,
                ).physics.collision_radius_mm >= s.body_of(b).physics.collision_radius_mm) || (
                b.index < i && s.body_of(b).physics.collision_radius_mm >= s.body_of(
                    a,
                ).physics.collision_radius_mm)) ==> spec_reported(pairs@, a, b),
        decreases n - i,
    {
        let slot = store.peek(i);
        match slot {
            None => {
                proof {
                    if spec_synced(s, *octree) {
                        assert forall|a: EntityId, b: EntityId|
                            #[trigger] spec_confirmed(s, a, b) && ((a.index < i + 1 && s.body_of(
                                a,
                            ).physics.collision_radius_mm >= s.body_of(
                                b,
                            ).physics.collision_radius_mm) || (b.index < i + 1 && s.body_of(
                                b,
                            ).physics.collision_radius_mm >= s.body_of(
                                a,
                            ).physics.collision_radius_mm)) implies spec_reported(
                            pairs@,
                            a,
                            b,
                        ) by {
                            if a.index == i {
                                assert(s.live(a));
                                assert(false);
                            }
                            if b.index == i {
                                assert(s.live(b));
                                assert(false);
                            }
                        }
                    }
                }
            },
            Some((a_id, a_body)) => {
                let mut results: Vec<EntityId> = Vec::new();
                let radius: u64 = 2 * a_body.physics.collision_radius_mm;
                octree.query_sphere(&a_body.orbital.position, radius as i64, &mut results);
                let m = results.len();
                let mut j: usize = 0;
                while j < m
                    invariant
                        m == results@.len(),
                        j <= m,
                        s == *store,
                        store.wf(),
                        spec_store_geometry_ok(s),
                        s.live(a_id),
                        a_id.index == i < n,
                        n == s.slots@.len(),
                        a_body == s.body_of(a_id),
                        forall|k: int|
                            0 <= k < pairs@.len() ==> spec_confirmed(
                                s,
                                (#[trigger] pairs@[k]).first,
                                pairs@[k].second,
                            ) && pairs@[k].first.index < pairs@[k].second.index,
                        forall|k1: int, k2: int|
                            0 <= k1 < k2 < pairs@.len() ==> spec_pair_key(#[trigger] pairs@[k1])
                                != spec_pair_key(#[trigger] pairs@[k2]),
                        forall|k: int|
                            0 <= k < pairs@.len() ==> checked@.contains(
                                spec_pair_key(#[trigger] pairs@[k]) as u64,
                            ),
                        forall|a: EntityId, b: EntityId|
                            s.live(a) && s.live(b) && a.index < b.index && checked@.contains(
                                spec_pair_key(#[trigger] spec_canonical_pair(a, b)) as u64,
                            ) ==> (spec_confirmed(s, a, b) ==> spec_in_pairs(pairs@, a, b)),
                        spec_synced(s, *octree) ==> forall|a: EntityId, b: EntityId|
                            #[trigger] spec_confirmed(s, a, b) && ((a.index < i && s.body_of(
                                a,
                            ).physics.collision_radius_mm >= s.body_of(
                                b,
                            ).physics.collision_radius_mm) || (b.index < i && s.body_of(
                                b,
                            ).physics.collision_radius_mm >= s.body_of(
                                a,
                            ).physics.collision_radius_mm)) ==> spec_reported(pairs@, a, b),
                        // candidates already examined are settled
                        forall|j2: int|
                            0 <= j2 < j ==> (spec_confirmed(s, a_id, #[trigger] results@[j2])
                                ==> spec_reported(pairs@, a_id, results@[j2])),
                    decreases m - j,
                {
                    let c_id = results[j];
                    if c_id == a_id {
                        j = j + 1;
                        continue;
                    }
                    let c = store.get(c_id);
                    match c {
                        None => {
                            j = j + 1;
                            continue;
                        },
                        Some(c_body) => {
                            proof {
                                if c_id.index == a_id.index {
                                    assert(c_id == a_id);
                                }
                            }
                            let pair = canonical_pair(a_id, c_id);
                            let key = pair_key(&pair);
                            if checked.contains(&key) {
                                proof {
                                    if spec_confirmed(s, a_id, c_id) {
                                        if a_id.index < c_id.index {
                                            assert(spec_canonical_pair(a_id, c_id) == pair);
                                            assert(checked@.contains(
                                                spec_pair_key(
                                                    spec_canonical_pair(a_id, c_id),
                                                ) as u64,
                                            ));
                                            assert(spec_in_pairs(pairs@, a_id, c_id));
                                        } else {
                                            lemma_confirmed_symmetric(s, a_id, c_id);
                                            assert(spec_canonical_pair(c_id, a_id) == pair);
                                            assert(checked@.contains(
                                                spec_pair_key(
                                                    spec_canonical_pair(c_id, a_id),
                                                ) as u64,
                                            ));
                                            assert(spec_in_pairs(pairs@, c_id, a_id));
                                        }
                                        assert(spec_reported(pairs@, a_id, c_id));
                                    }
                                }
                                j = j + 1;
                                continue;
                            }
                            let ghost pre_checked = checked@;
                            checked.insert(key);
                            let d2 = a_body.orbital.position.dist_sq(&c_body.orbital.position);
                            let rsum: u64 = a_body.physics.collision_radius_mm
                                + c_body.physics.collision_radius_mm;
                            proof {
                                assert((rsum as int) * (rsum as int) <= 2_000_000_000_000 * (
                                2_000_000_000_000_int)) by (nonlinear_arith)
                                    requires
                                        0 <= rsum <= 2_000_000_000_000,
                                ;
                            }
                            let r2: i128 = (rsum as i128) * (rsum as i128);
                            let ghost pre_pairs = pairs@;
                            if d2 <= r2 {
                                proof {
                                    assert(spec_confirmed(s, a_id, c_id));
                                    if pair.first != a_id {
                                        lemma_confirmed_symmetric(s, a_id, c_id);
                                    }
                                    assert(spec_confirmed(s, pair.first, pair.second));
                                    assert(pair.first.index != pair.second.index);
                                }
                                pairs.push(pair);
                                proof {
                                    assert(pairs@ == pre_pairs.push(pair));
                                    assert(pairs@[pre_pairs.len() as int] == pair);
                                    assert forall|a: EntityId, b: EntityId|
                                        s.live(a) && s.live(b) && a.index < b.index
                                            && checked@.contains(
                                            spec_pair_key(
                                                #[trigger] spec_canonical_pair(a, b),
                                            ) as u64,
                                        ) && spec_confirmed(s, a, b) implies spec_in_pairs(
                                        pairs@,
                                        a,
                                        b,
                                    ) by {
                                        let cp = spec_canonical_pair(a, b);
                                        if cp == pair {
                                            assert(spec_in_pairs(pairs@, a, b));
                                        } else if pre_checked.contains(
                                            spec_pair_key(cp) as u64,
                                        ) {
                                            assert(spec_in_pairs(pre_pairs, a, b));
                                            lemma_in_pairs_push(pre_pairs, pair, a, b);
                                        } else {
                                            crate::ids::lemma_pair_key_injective(cp, pair);
                                            assert(cp.first.index == pair.first.index
                                                && cp.second.index == pair.second.index);
                                            assert(cp == pair);
                                        }
                                    }
                                    assert forall|j2: int|
                                        0 <= j2 < j + 1 && spec_confirmed(
                                            s,
                                            a_id,
                                            #[trigger] results@[j2],
                                        ) implies spec_reported(pairs@, a_id, results@[j2]) by {
                                        if j2 < j {
                                            let b = results@[j2];
                                            if spec_reported(pre_pairs, a_id, b) {
                                                if a_id.index < b.index {
                                                    lemma_in_pairs_push(pre_pairs, pair, a_id, b);
                                                } else {
                                                    lemma_in_pairs_push(pre_pairs, pair, b, a_id);
                                                }
                                            }
                                        } else {
                                            assert(results@[j2] == c_id);
                                            assert(spec_in_pairs(pairs@, pair.first, pair.second));
                                        }
                                    }
                                    assert(spec_synced(s, *octree) ==> forall|
                                        a: EntityId,
                                        b: EntityId,
                                    |
                                        #[trigger] spec_confirmed(s, a, b) && ((a.index < i
                                            && s.body_of(a).physics.collision_radius_mm
                                            >= s.body_of(b).physics.collision_radius_mm) || (
                                        b.index < i && s.body_of(b).physics.collision_radius_mm
                                            >= s.body_of(a).physics.collision_radius_mm))
                                            ==> spec_reported(pairs@, a, b)) by {
                                        if spec_synced(s, *octree) {
                                            assert forall|a: EntityId, b: EntityId|
                                                #[trigger] spec_confirmed(s, a, b) && ((a.index < i
                                                    && s.body_of(a).physics.collision_radius_mm
                                                    >= s.body_of(
                                                    b,
                                                ).physics.collision_radius_mm) || (b.index < i
                                                    && s.body_of(b).physics.collision_radius_mm
                                                    >= s.body_of(
                                                    a,
                                                ).physics.collision_radius_mm)) implies spec_reported(
                                                pairs@,
                                                a,
                                                b,
                                            ) by {
                                                assert(spec_reported(pre_pairs, a, b));
                                                if a.index < b.index {
                                                    lemma_in_pairs_push(pre_pairs, pair, a, b);
                                                } else {
                                                    lemma_in_pairs_push(pre_pairs, pair, b, a);
                                                }
                                            }
                                        }
                                    }
                                }
                            } else {
                                proof {
                                    assert(!spec_confirmed(s, a_id, c_id));
                                    assert forall|a: EntityId, b: EntityId|
                                        s.live(a) && s.live(b) && a.index < b.index
                                            && checked@.contains(
                                            spec_pair_key(
                                                #[trigger] spec_canonical_pair(a, b),
                                            ) as u64,
                                        ) && spec_confirmed(s, a, b) implies spec_in_pairs(
                                        pairs@,
                                        a,
                                        b,
                                    ) by {
                                        let cp = spec_canonical_pair(a, b);
                                        if !pre_checked.contains(spec_pair_key(cp) as u64) {
                                            crate::ids::lemma_pair_key_injective(cp, pair);
                                            assert(cp == pair);
                                            assert(a == pair.first && b == pair.second || a
                                                == pair.second && b == pair.first);
                                            lemma_confirmed_symmetric(s, a, b);
                                            crate::math::lemma_dist_sq_symmetric(
                                                s.body_of(a_id).orbital.position,
                                                s.body_of(c_id).orbital.position,
                                            );
                                            assert(false);
                                        }
                                    }
                                }
                            }
                            j = j + 1;
                        },
                    }
                }
                // every in-range partner of this body appeared among the
                // candidates, so every pair it dominates is now settled
                proof {
                    if spec_synced(s, *octree) {
                        assert forall|b: EntityId|
                            #[trigger] spec_confirmed(s, a_id, b) && s.body_of(
                                a_id,
                            ).physics.collision_radius_mm >= s.body_of(
                                b,
                            ).physics.collision_radius_mm implies spec_reported(
                            pairs@,
                            a_id,
                            b,
                        ) by {
                            let pa = s.body_of(a_id).orbital.position;
                            let pb = s.body_of(b).orbital.position;
                            let ra = s.body_of(a_id).physics.collision_radius_mm;
                            let rb = s.body_of(b).physics.collision_radius_mm;
                            assert((ra + rb) * (ra + rb) <= (2 * ra) * (2 * ra))
                                by (nonlinear_arith)
                                requires
                                    0 <= rb <= ra,
                            ;
                            assert(octree.contents().contains((b, pb)));
                            assert(spec_dist_sq(pb, pa) <= (2 * ra) * (2 * ra)) by {
                                crate::math::lemma_dist_sq_symmetric(pa, pb);
                            }
                            assert(results@.contains(b));
                            let j2 = choose|j2: int|
                                0 <= j2 < results@.len() && results@[j2] == b;
                            assert(spec_reported(pairs@, a_id, results@[j2]));
                        }
                        assert forall|a: EntityId, b: EntityId|
                            #[trigger] spec_confirmed(s, a, b) && ((a.index < i + 1 && s.body_of(
                                a,
                            ).physics.collision_radius_mm >= s.body_of(
                                b,
                            ).physics.collision_radius_mm) || (b.index < i + 1 && s.body_of(
                                b,
                            ).physics.collision_radius_mm >= s.body_of(
                                a,
                            ).physics.collision_radius_mm)) implies spec_reported(
                            pairs@,
                            a,
                            b,
                        ) by {
                            let ra = s.body_of(a).physics.collision_radius_mm;
                            let rb = s.body_of(b).physics.collision_radius_mm;
                            if (a.index < i && ra >= rb) || (b.index < i && rb >= ra) {
                            } else if a.index == i && ra >= rb {
                                assert(s.live(a) && a.index == a_id.index);
                                assert(a == a_id);
                                assert(spec_reported(pairs@, a_id, b));
                            } else {
                                assert(b.index == i && rb >= ra);
                                assert(s.live(b) && b.index == a_id.index);
                                assert(b == a_id);
                                lemma_confirmed_symmetric(s, a, b);
                                assert(spec_reported(pairs@, a_id, a));
                            }
                        }
                    }
                }
            },
        }
        i = i + 1;
    }
    proof {
        if spec_synced(s, *octree) {
            assert forall|a: EntityId, b: EntityId|
                #[trigger] spec_confirmed(s, a, b) implies spec_reported(pairs@, a, b) by {
                assert(a.index < n && b.index < n);
                if s.body_of(a).physics.collision_radius_mm >= s.body_of(
                    b,
                ).physics.collision_radius_mm {
                    assert(spec_confirmed(s, a, b));
                } else {
                    lemma_confirmed_symmetric(s, a, b);
                    assert(spec_reported(pairs@, b, a));
                }
            }
        }
    }
    CollisionPairs { pairs }
}

} // verus!
