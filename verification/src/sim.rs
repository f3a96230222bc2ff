//! The simulation: the state store, the spatial index, the clock and the
//! per-tick pipeline.
//!
//! Each tick runs strictly in order: the integrator advances every body
//! (unless the clock is paused, which freezes only the integrator), the
//! spatial index is refreshed from the post-integration positions, the
//! collision detector produces this tick's pair set, and the debris
//! generator consumes it. Fragments spawned in tick T enter the index in
//! tick T+1, so entity visibility is always one full tick behind creation.

use vstd::prelude::*;

use crate::bodies::{OrbitalState, PhysicsObject, spec_state_valid};
use crate::collision::{CollisionPairs, RADIUS_LIMIT_MM, detect_collisions, spec_store_geometry_ok};
use crate::constants::{Constants, GM_LIMIT};
use crate::debris_gen::generate_debris;
use crate::ids::EntityId;
use crate::math::Vec3;
use crate::octree::{OctreeNode, SpatialOctree, spec_in_cube};
use crate::physics::{DT_LIMIT_MS, EulerIntegrator, IntegratorConfig, RK4Integrator,
    spec_euler_step, spec_rk4_step};
use crate::sim_time::{SimulationTime, ADVANCE_DELTA_LIMIT_MS};
use crate::store::{Body, Store};

verus! {

/// The whole simulation state.
pub struct Simulation {
    /// Physical constants of the central body.
    pub constants: Constants,
    /// The simulation clock.
    pub time: SimulationTime,
    /// Which integrator advances the bodies.
    pub integrator: IntegratorConfig,
    /// The orbital state store.
    pub store: Store,
    /// The spatial index.
    pub octree: SpatialOctree,
    /// This tick's confirmed collision pairs.
    pub pairs: CollisionPairs,
    /// How many ticks have run.
    pub tick_index: u64,
    /// How many collisions have been processed, for lineage ids.
    pub collision_counter: u32,
    /// The seedable random source for debris kicks.
    pub rng: rand::rngs::StdRng,
}

/// Every live body that the index lists as indexed truly stands in the
/// index under its recorded position.
pub open spec fn spec_coherent(s: Store, root: OctreeNode) -> bool {
    forall|id: EntityId|
        #[trigger] s.live(id) ==> match s.body_of(id).indexed_position {
            Some(p) => root.contents().contains((id, p)),
            None => true,
        }
}

/// Each live body stands in the index exactly under its recorded
/// position: once there and nowhere else, and not at all when it has no
/// recorded position.
pub open spec fn spec_indexed_once(s: Store, root: OctreeNode) -> bool {
    forall|id: EntityId, p: Vec3|
        s.live(id) ==> #[trigger] root.contents().count((id, p)) == if s.body_of(
            id,
        ).indexed_position == Some(p) {
            1int
        } else {
            0int
        }
}

/// Every index entry names a slot that exists and whose generation has not
/// fallen behind the entry's; an entry at the slot's current generation
/// belongs to the live body there, recorded at exactly that position.
/// (Entries of despawned bodies may linger; their generations are stale.)
pub open spec fn spec_entries_current(s: Store, root: OctreeNode) -> bool {
    forall|id: EntityId, p: Vec3|
        #[trigger] root.contents().count((id, p)) > 0 ==> (id.index as int) < s.slots@.len()
            && id.generation <= s.slots@[id.index as int].generation && (id.generation
            == s.slots@[id.index as int].generation ==> s.live(id) && s.body_of(
            id,
        ).indexed_position == Some(p))
}

/// Every live body sits inside the index's root cube.
pub open spec fn spec_all_in_cube(s: Store, root: OctreeNode) -> bool {
    forall|id: EntityId|
        #[trigger] s.live(id) ==> spec_in_cube(
            root.center,
            root.half_size as int,
            s.body_of(id).orbital.position,
        )
}

/// After a reindex, a population that sits entirely inside the root cube
/// is fully synced: every live body stands in the index at its live
/// position — the premise under which the collision detector misses no
/// truly colliding pair.
pub proof fn lemma_all_in_cube_synced(s: Store, root: OctreeNode)
    requires
        spec_all_in_cube(s, root),
        forall|id: EntityId|
            s.live(id) && spec_in_cube(
                root.center,
                root.half_size as int,
                s.body_of(id).orbital.position,
            ) ==> #[trigger] root.contents().contains((id, s.body_of(id).orbital.position)),
    ensures
        crate::collision::spec_synced(s, root),
{
}

impl Simulation {
    /// The standing well-formedness of a simulation.
    pub open spec fn wf(self) -> bool {
        &&& self.store.wf()
        &&& spec_store_geometry_ok(self.store)
        &&& self.octree.root.wf()
        &&& spec_coherent(self.store, self.octree.root)
        &&& spec_indexed_once(self.store, self.octree.root)
        &&& spec_entries_current(self.store, self.octree.root)
        &&& self.constants.gravitational_parameter <= GM_LIMIT
        &&& self.time.timestep_ms <= DT_LIMIT_MS
    }

    /// A fresh simulation over Earth's constants with the given random
    /// seed.
    pub fn new(seed: u64) -> (sim: Simulation)
        ensures
            sim.wf(),
            sim.store.slots@.len() == 0,
            sim.tick_index == 0,
    {
        Simulation {
            constants: Constants::default(),
            time: SimulationTime::default(),
            integrator: IntegratorConfig::default(),
            store: Store::new(),
            octree: SpatialOctree::default(),
            pairs: CollisionPairs { pairs: Vec::new() },
            tick_index: 0,
            collision_counter: 0,
            rng: crate::rng::rng_from_seed(seed),
        }
    }

    /// Spawn a body into the store, not yet indexed (it enters the spatial
    /// index at the next tick). A state outside the kernel's numeric range
    /// is rejected.
    pub fn spawn_body(&mut self, orbital: OrbitalState, physics: PhysicsObject) -> (id: Option<
        EntityId,
    >)
        requires
            old(self).wf(),
            old(self).store.slots@.len() < 0xffff_fffe,
        ensures
            final(self).wf(),
            match id {
                Some(id) => final(self).store.live(id) && final(self).store.body_of(id) == (Body {
                    orbital,
                    physics,
                    debris: None,
                    indexed_position: None,
                }) && spec_state_valid(orbital) && physics.collision_radius_mm <= RADIUS_LIMIT_MM,
                None => *final(self) == *old(self) && !(spec_state_valid(orbital)
                    && physics.collision_radius_mm <= RADIUS_LIMIT_MM),
            },
            final(self).tick_index == old(self).tick_index,
    {
        if !orbital.is_valid() || physics.collision_radius_mm > RADIUS_LIMIT_MM {
            return None;
        }
        let ghost s0 = self.store;
        let body = Body { orbital, physics, debris: None, indexed_position: None };
        let id = self.store.spawn(body);
        proof {
            assert forall|id2: EntityId, p: Vec3| self.store.live(id2) implies
                #[trigger] self.octree.root.contents().count((id2, p)) == if self.store.body_of(
                id2,
            ).indexed_position == Some(p) {
                1int
            } else {
                0int
            } by {
                if id2 == id {
                    // a fresh identity has no entry: any entry at its slot
                    // and generation would have named a live body
                    if self.octree.root.contents().count((id2, p)) > 0 {
                        assert((id2.index as int) < s0.slots@.len());
                        assert(s0.slots@[id.index as int].generation == id.generation);
                        assert(s0.live(id2));
                        assert(false);
                    }
                } else {
                    assert(s0.live(id2));
                    assert(self.store.body_of(id2) == s0.body_of(id2));
                }
            }
            assert forall|id2: EntityId, p: Vec3|
                #[trigger] self.octree.root.contents().count((id2, p)) > 0 implies (
            id2.index as int) < self.store.slots@.len() && id2.generation <= self.store.slots@[
                id2.index as int].generation && (id2.generation == self.store.slots@[
                id2.index as int].generation ==> self.store.live(id2) && self.store.body_of(
                id2,
            ).indexed_position == Some(p)) by {
                assert((id2.index as int) < s0.slots@.len());
                if id2.index == id.index {
                    assert(self.store.slots@[id2.index as int].generation == s0.slots@[
                        id2.index as int].generation);
                    if id2.generation == self.store.slots@[id2.index as int].generation {
                        assert(s0.live(id2));
                        assert(false);
                    }
                } else {
                    assert(self.store.slots@[id2.index as int] == s0.slots@[id2.index as int]);
                    if id2.generation == self.store.slots@[id2.index as int].generation {
                        assert(s0.live(id2));
                        assert(id2 != id);
                        assert(self.store.live(id2) && self.store.body_of(id2) == s0.body_of(
                            id2,
                        ));
                    }
                }
            }
        }
        Some(id)
    }

    /// Advance every live body by one physics step of `dt_ms` under the
    /// configured integrator. A body whose step leaves the kernel's
    /// numeric range keeps its old state (degenerate, skipped). Nothing
    /// else about any body changes.
    pub fn integrate_all(&mut self, dt_ms: u64)
        requires
            old(self).wf(),
            dt_ms <= DT_LIMIT_MS,
        ensures
            final(self).wf(),
            final(self).store.slots@.len() == old(self).store.slots@.len(),
            forall|id: EntityId|
                final(self).store.live(id) == old(self).store.live(id),
            forall|id: EntityId|
                old(self).store.live(id) ==> #[trigger] final(self).store.body_of(id)
                    == spec_integrated_body(
                    old(self).store.body_of(id),
                    old(self).constants.gravitational_parameter,
                    dt_ms,
                    old(self).integrator.use_rk4,
                ),
            final(self).time == old(self).time,
            final(self).octree == old(self).octree,
            final(self).constants == old(self).constants,
            final(self).integrator == old(self).integrator,
            final(self).tick_index == old(self).tick_index,
    {
        let gm = self.constants.gravitational_parameter;
        let use_rk4 = self.integrator.use_rk4;
        let n = self.store.slot_len();
        let ghost s0 = self.store;
        let mut i: usize = 0;
        while i < n
            invariant
                i <= n,
                n == self.store.slots@.len(),
                n == s0.slots@.len(),
                gm == self.constants.gravitational_parameter,
                use_rk4 == self.integrator.use_rk4,
                gm <= GM_LIMIT,
                dt_ms <= DT_LIMIT_MS,
                self.store.wf(),
                spec_store_geometry_ok(self.store),
                spec_coherent(s0, self.octree.root),
                self.octree.root.wf(),
                s0 == old(self).store,
                self.time == old(self).time,
                self.octree == old(self).octree,
                self.constants == old(self).constants,
                self.integrator == old(self).integrator,
                self.tick_index == old(self).tick_index,
                self.pairs == old(self).pairs,
                self.collision_counter == old(self).collision_counter,
                forall|id: EntityId| self.store.live(id) == s0.live(id),
                forall|k: int|
                    0 <= k < n ==> (#[trigger] self.store.slots@[k]).generation
                        == s0.slots@[k].generation,
                forall|id: EntityId|
                    s0.live(id) ==> #[trigger] self.store.body_of(id).indexed_position
                        == s0.body_of(id).indexed_position,
                forall|id: EntityId|
                    s0.live(id) && id.index >= i ==> #[trigger] self.store.body_of(id) == s0.body_of(
                        id,
                    ),
                forall|id: EntityId|
                    s0.live(id) && id.index < i ==> #[trigger] self.store.body_of(id)
                        == spec_integrated_body(s0.body_of(id), gm, dt_ms, use_rk4),
            decreases n - i,
        {
            match self.store.peek(i) {
                None => {
                    proof {
                        assert forall|id: EntityId| s0.live(id) && id.index < i + 1 implies
                        #[trigger] self.store.body_of(id) == spec_integrated_body(
                            s0.body_of(id),
                            gm,
                            dt_ms,
                            use_rk4,
                        ) by {
                            if id.index == i {
                                assert(self.store.live(id));
                                assert(self.store.slots@[i as int].body is Some);
                                assert(false);
                            }
                        }
                    }
                },
                Some((id, body)) => {
                    let stepped = if use_rk4 {
                        RK4Integrator::integrate(
                            body.orbital.position,
                            body.orbital.velocity,
                            dt_ms,
                            gm,
                        )
                    } else {
                        EulerIntegrator::integrate(
                            body.orbital.position,
                            body.orbital.velocity,
                            dt_ms,
                            gm,
                        )
                    };
                    let candidate = OrbitalState {
                        position: stepped.0,
                        velocity: stepped.1,
                        mass_mg: body.orbital.mass_mg,
                    };
                    if candidate.is_valid() {
                        let updated = Body { orbital: candidate, ..body };
                        self.store.put(id, updated);
                    }
                    proof {
                        assert forall|other: EntityId| s0.live(other) && other.index < i + 1
                            implies #[trigger] self.store.body_of(other) == spec_integrated_body(
                            s0.body_of(other),
                            gm,
                            dt_ms,
                            use_rk4,
                        ) by {
                            assert(self.store.live(other));
                            if other.index == i {
                                assert(other.index == id.index);
                                assert(other == id);
                            } else {
                                assert(other != id);
                            }
                        }
                        assert forall|other: EntityId| s0.live(other) && other.index >= i + 1
                            implies #[trigger] self.store.body_of(other) == s0.body_of(other) by {
                            assert(self.store.live(other));
                            assert(other != id);
                        }
                        assert forall|other: EntityId| s0.live(other) implies
                        #[trigger] self.store.body_of(other).indexed_position == s0.body_of(
                            other,
                        ).indexed_position by {
                            assert(self.store.live(other));
                            if other != id {
                            }
                        }
                    }
                },
            }
            i = i + 1;
        }
        proof {
            assert(spec_coherent(self.store, self.octree.root)) by {
                assert forall|id: EntityId| #[trigger] self.store.live(id) implies match self.store.body_of(
                    id,
                ).indexed_position {
                    Some(p) => self.octree.root.contents().contains((id, p)),
                    None => true,
                } by {
                    assert(s0.live(id));
                    assert(self.store.body_of(id).indexed_position == s0.body_of(
                        id,
                    ).indexed_position);
                }
            }
            assert forall|id: EntityId, p: Vec3| self.store.live(id) implies
                #[trigger] self.octree.root.contents().count((id, p)) == if self.store.body_of(
                id,
            ).indexed_position == Some(p) {
                1int
            } else {
                0int
            } by {
                assert(s0.live(id));
                assert(self.store.body_of(id).indexed_position == s0.body_of(
                    id,
                ).indexed_position);
            }
            assert forall|id: EntityId, p: Vec3|
                #[trigger] self.octree.root.contents().count((id, p)) > 0 implies (
            id.index as int) < self.store.slots@.len() && id.generation <= self.store.slots@[
                id.index as int].generation && (id.generation == self.store.slots@[
                id.index as int].generation ==> self.store.live(id) && self.store.body_of(
                id,
            ).indexed_position == Some(p)) by {
                assert(self.store.slots@[id.index as int].generation == s0.slots@[
                    id.index as int].generation);
                if id.generation == self.store.slots@[id.index as int].generation {
                    assert(s0.live(id));
                    assert(self.store.body_of(id).indexed_position == s0.body_of(
                        id,
                    ).indexed_position);
                }
            }
        }
    }

    /// Refresh the spatial index: every live body is taken out of its old
    /// place and re-inserted at its live position; a body whose position
    /// falls outside the root cube is dropped from the index (it keeps
    /// integrating but is excluded from collision checks until back in
    /// range). Afterwards every live body inside the root cube stands in
    /// the index at its live position.
    pub fn reindex(&mut self)
        requires
            old(self).wf(),
        ensures
            final(self).wf(),
            final(self).store.slots@.len() == old(self).store.slots@.len(),
            forall|id: EntityId|
                final(self).store.live(id) == old(self).store.live(id),
            forall|id: EntityId|
                #[trigger] old(self).store.live(id) ==> {
                    let b_new = final(self).store.body_of(id);
                    let b_old = old(self).store.body_of(id);
                    &&& b_new.orbital == b_old.orbital
                    &&& b_new.physics == b_old.physics
                    &&& b_new.debris == b_old.debris
                },
            spec_coherent(final(self).store, final(self).octree.root),
            // each in-range live body is indexed exactly once, at its live
            // position (part of wf, restated here as this pass's point)
            spec_indexed_once(final(self).store, final(self).octree.root),
            forall|id: EntityId|
                final(self).store.live(id) && spec_in_cube(
                    final(self).octree.root.center,
                    final(self).octree.root.half_size as int,
                    final(self).store.body_of(id).orbital.position,
                ) ==> #[trigger] final(self).octree.root.contents().contains(
                    (id, final(self).store.body_of(id).orbital.position),
                ),
            // each live body's recorded index position is its live position,
            // or nothing when that position falls outside the root cube
            forall|id: EntityId|
                #[trigger] final(self).store.live(id) ==> final(self).store.body_of(
                    id,
                ).indexed_position == if spec_in_cube(
                    final(self).octree.root.center,
                    final(self).octree.root.half_size as int,
                    final(self).store.body_of(id).orbital.position,
                ) {
                    Some(final(self).store.body_of(id).orbital.position)
                } else {
                    None::<Vec3>
                },
            final(self).octree.root.center == old(self).octree.root.center,
            final(self).octree.root.half_size == old(self).octree.root.half_size,
            final(self).time == old(self).time,
            final(self).constants == old(self).constants,
            final(self).integrator == old(self).integrator,
            final(self).tick_index == old(self).tick_index,
    {
        broadcast use vstd::multiset::group_multiset_axioms;

        let n = self.store.slot_len();
        let ghost s0 = self.store;
        let mut i: usize = 0;
        while i < n
            invariant
                i <= n,
                n == self.store.slots@.len(),
                n == s0.slots@.len(),
                self.store.wf(),
                spec_store_geometry_ok(self.store),
                self.octree.root.wf(),
                self.octree.root.center == old(self).octree.root.center,
                self.octree.root.half_size == old(self).octree.root.half_size,
                self.octree.root.max_depth == old(self).octree.root.max_depth,
                self.octree.root.depth == old(self).octree.root.depth,
                spec_coherent(self.store, self.octree.root),
                spec_indexed_once(self.store, self.octree.root),
                spec_entries_current(self.store, self.octree.root),
                forall|k: int|
                    0 <= k < n ==> (#[trigger] self.store.slots@[k]).generation
                        == s0.slots@[k].generation,
                s0 == old(self).store,
                self.time == old(self).time,
                self.constants == old(self).constants,
                self.integrator == old(self).integrator,
                self.tick_index == old(self).tick_index,
                self.pairs == old(self).pairs,
                self.collision_counter == old(self).collision_counter,
                forall|id: EntityId| self.store.live(id) == s0.live(id),
                forall|id: EntityId|
                    #[trigger] s0.live(id) ==> {
                        let b_new = self.store.body_of(id);
                        let b_old = s0.body_of(id);
                        &&& b_new.orbital == b_old.orbital
                        &&& b_new.physics == b_old.physics
                        &&& b_new.debris == b_old.debris
                    },
                forall|id: EntityId|
                    s0.live(id) && id.index < i && spec_in_cube(
                        self.octree.root.center,
                        self.octree.root.half_size as int,
                        s0.body_of(id).orbital.position,
                    ) ==> #[trigger] self.octree.root.contents().contains(
                        (id, s0.body_of(id).orbital.position),
                    ),
                forall|id: EntityId|
                    #[trigger] s0.live(id) && id.index < i ==> self.store.body_of(
                        id,
                    ).indexed_position == if spec_in_cube(
                        self.octree.root.center,
                        self.octree.root.half_size as int,
                        s0.body_of(id).orbital.position,
                    ) {
                        Some(s0.body_of(id).orbital.position)
                    } else {
                        None::<Vec3>
                    },
            decreases n - i,
        {
            let entry = self.store.peek(i);
            match entry {
                None => {
                    proof {
                        assert forall|id: EntityId|
                            s0.live(id) && id.index < i + 1 && spec_in_cube(
                                self.octree.root.center,
                                self.octree.root.half_size as int,
                                s0.body_of(id).orbital.position,
                            ) implies #[trigger] self.octree.root.contents().contains(
                            (id, s0.body_of(id).orbital.position),
                        ) by {
                            if id.index == i {
                                assert(self.store.live(id));
                                assert(self.store.slots@[i as int].body is Some);
                                assert(false);
                            }
                        }
                        assert forall|id2: EntityId|
                            #[trigger] s0.live(id2) && id2.index < i + 1 implies self.store.body_of(
                            id2,
                        ).indexed_position == if spec_in_cube(
                            self.octree.root.center,
                            self.octree.root.half_size as int,
                            s0.body_of(id2).orbital.position,
                        ) {
                            Some(s0.body_of(id2).orbital.position)
                        } else {
                            None::<Vec3>
                        } by {
                            if id2.index == i {
                                assert(self.store.live(id2));
                                assert(self.store.slots@[i as int].body is Some);
                                assert(false);
                            }
                        }
                    }
                },
                Some((id, body)) => {
                    let pos = body.orbital.position;
                    let ghost pre_state = *self;
                    let ghost pre_contents = self.octree.root.contents();
                    let removed: bool = match body.indexed_position {
                        Some(p) => self.octree.root.remove(id, p),
                        None => false,
                    };
                    let ghost mid_contents = self.octree.root.contents();
                    let inserted = self.octree.root.insert(id, pos);
                    let new_indexed: Option<Vec3> = if inserted {
                        Some(pos)
                    } else {
                        None
                    };
                    let updated = Body { indexed_position: new_indexed, ..body };
                    self.store.put(id, updated);
                    proof {
                        broadcast use vstd::multiset::group_multiset_axioms;

                        assert(self.store.live(id) && self.store.body_of(id) == updated);
                        // an entry of any other body survives this body's
                        // removal and re-insertion
                        assert forall|other: EntityId, q: Vec3|
                            other != id && pre_contents.contains((other, q)) implies
                            #[trigger] self.octree.root.contents().contains((other, q)) by {
                            if removed {
                                let p2 = choose|p2: Vec3|
                                    pre_contents.contains((id, p2)) && mid_contents
                                        == pre_contents.remove((id, p2));
                                assert(mid_contents.contains((other, q)));
                            } else {
                                assert(mid_contents == pre_contents);
                            }
                            if inserted {
                                assert(self.octree.root.contents() == mid_contents.insert(
                                    (id, pos),
                                ));
                            }
                        }
                        assert forall|other: EntityId|
                            #[trigger] self.store.live(other) implies match self.store.body_of(
                            other,
                        ).indexed_position {
                            Some(p2) => self.octree.root.contents().contains((other, p2)),
                            None => true,
                        } by {
                            if other == id {
                                if inserted {
                                    assert(self.octree.root.contents() == mid_contents.insert(
                                        (id, pos),
                                    ));
                                    assert(self.octree.root.contents().contains((id, pos)));
                                }
                            } else {
                                assert(s0.live(other));
                                assert(self.store.body_of(other) == pre_state.store.body_of(
                                    other,
                                ));
                                match pre_state.store.body_of(other).indexed_position {
                                    Some(p2) => {
                                        assert(pre_contents.contains((other, p2)));
                                    },
                                    None => {},
                                }
                            }
                        }
                        assert forall|other: EntityId|
                            s0.live(other) && other.index < i + 1 && spec_in_cube(
                                self.octree.root.center,
                                self.octree.root.half_size as int,
                                s0.body_of(other).orbital.position,
                            ) implies #[trigger] self.octree.root.contents().contains(
                            (other, s0.body_of(other).orbital.position),
                        ) by {
                            if other.index == i {
                                assert(self.store.live(other) && other.index == id.index);
                                assert(other == id);
                                assert(inserted);
                                assert(self.octree.root.contents() == mid_contents.insert(
                                    (id, pos),
                                ));
                            } else {
                                assert(other != id);
                                assert(pre_contents.contains(
                                    (other, s0.body_of(other).orbital.position),
                                ));
                            }
                        }
                        assert forall|id2: EntityId| #[trigger] s0.live(id2) implies {
                            let b_new = self.store.body_of(id2);
                            let b_old = s0.body_of(id2);
                            b_new.orbital == b_old.orbital && b_new.physics == b_old.physics
                                && b_new.debris == b_old.debris
                        } by {
                            assert(self.store.live(id2));
                            if id2 != id {
                                assert(self.store.body_of(id2) == pre_state.store.body_of(id2));
                            }
                        }
                        // this body's old entry is gone and its new entry —
                        // if any — is the only one; nobody else's counts move
                        let ghost now_contents = self.octree.root.contents();
                        assert forall|id2: EntityId, p2: Vec3| self.store.live(id2) implies
                            #[trigger] now_contents.count((id2, p2)) == if self.store.body_of(
                            id2,
                        ).indexed_position == Some(p2) {
                            1int
                        } else {
                            0int
                        } by {
                            if id2 == id {
                                if removed {
                                    let pr = choose|pr: Vec3|
                                        pre_contents.contains((id, pr)) && mid_contents
                                            == pre_contents.remove((id, pr));
                                    assert(pre_contents.count((id, pr)) > 0);
                                    assert(pre_state.store.body_of(id).indexed_position == Some(
                                        pr,
                                    ));
                                    assert(mid_contents.count((id2, p2)) == 0);
                                } else {
                                    assert(mid_contents == pre_contents);
                                    assert(mid_contents.count((id2, p2)) == 0);
                                }
                                if inserted {
                                    assert(now_contents == mid_contents.insert((id, pos)));
                                } else {
                                    assert(now_contents == mid_contents);
                                }
                            } else {
                                assert(pre_state.store.live(id2));
                                assert(self.store.body_of(id2) == pre_state.store.body_of(id2));
                                assert(now_contents.count((id2, p2)) == pre_contents.count(
                                    (id2, p2),
                                )) by {
                                    if removed {
                                        let pr = choose|pr: Vec3|
                                            pre_contents.contains((id, pr)) && mid_contents
                                                == pre_contents.remove((id, pr));
                                        assert(mid_contents.count((id2, p2)) == pre_contents.count(
                                            (id2, p2),
                                        ));
                                    }
                                }
                            }
                        }
                        assert forall|id2: EntityId, p2: Vec3|
                            #[trigger] now_contents.count((id2, p2)) > 0 implies (
                        id2.index as int) < self.store.slots@.len() && id2.generation
                            <= self.store.slots@[id2.index as int].generation && (id2.generation
                            == self.store.slots@[id2.index as int].generation
                            ==> self.store.live(id2) && self.store.body_of(id2).indexed_position
                            == Some(p2)) by {
                            if id2 == id {
                                assert(now_contents.count((id2, p2)) == if self.store.body_of(
                                    id2,
                                ).indexed_position == Some(p2) {
                                    1int
                                } else {
                                    0int
                                });
                            } else {
                                assert(pre_contents.count((id2, p2)) >= now_contents.count(
                                    (id2, p2),
                                )) by {
                                    if removed {
                                        let pr = choose|pr: Vec3|
                                            pre_contents.contains((id, pr)) && mid_contents
                                                == pre_contents.remove((id, pr));
                                        assert(mid_contents.count((id2, p2)) == pre_contents.count(
                                            (id2, p2),
                                        ));
                                    }
                                }
                                assert(pre_contents.count((id2, p2)) > 0);
                                if id2.generation == self.store.slots@[id2.index as int].generation {
                                    assert(pre_state.store.live(id2));
                                    assert(self.store.body_of(id2) == pre_state.store.body_of(
                                        id2,
                                    ));
                                }
                            }
                        }
                        assert forall|id2: EntityId|
                            #[trigger] s0.live(id2) && id2.index < i + 1 implies self.store.body_of(
                            id2,
                        ).indexed_position == if spec_in_cube(
                            self.octree.root.center,
                            self.octree.root.half_size as int,
                            s0.body_of(id2).orbital.position,
                        ) {
                            Some(s0.body_of(id2).orbital.position)
                        } else {
                            None::<Vec3>
                        } by {
                            assert(self.store.live(id2));
                            if id2.index == i {
                                assert(id2.index == id.index && id2 == id);
                                assert(self.store.body_of(id2) == updated);
                                assert(pos == s0.body_of(id2).orbital.position);
                            } else {
                                assert(id2 != id);
                                assert(self.store.body_of(id2) == pre_state.store.body_of(id2));
                            }
                        }
                    }
                },
            }
            i = i + 1;
        }
        proof {
            assert forall|id: EntityId|
                self.store.live(id) && spec_in_cube(
                    self.octree.root.center,
                    self.octree.root.half_size as int,
                    self.store.body_of(id).orbital.position,
                ) implies #[trigger] self.octree.root.contents().contains(
                (id, self.store.body_of(id).orbital.position),
            ) by {
                assert(s0.live(id));
                assert(self.store.body_of(id).orbital == s0.body_of(id).orbital);
                assert(id.index < n);
            }
            assert forall|id: EntityId| #[trigger] self.store.live(id) implies self.store.body_of(
                id,
            ).indexed_position == if spec_in_cube(
                self.octree.root.center,
                self.octree.root.half_size as int,
                self.store.body_of(id).orbital.position,
            ) {
                Some(self.store.body_of(id).orbital.position)
            } else {
                None::<Vec3>
            } by {
                assert(s0.live(id));
                assert(self.store.body_of(id).orbital == s0.body_of(id).orbital);
                assert(id.index < n);
            }
        }
    }

    /// Run one full tick: advance the clock by the wall delta, integrate
    /// (unless paused), refresh the index, detect this tick's collisions
    /// and generate debris from them. Returns the fragments spawned this
    /// tick; they become visible to the index and the detector next tick.
    pub fn tick(&mut self, wall_delta_ms: u64) -> (spawned: Vec<EntityId>)
        requires
            old(self).wf(),
            wall_delta_ms <= ADVANCE_DELTA_LIMIT_MS,
            old(self).tick_index < u64::MAX,
        ensures
            final(self).wf(),
            final(self).tick_index == old(self).tick_index + 1,
            final(self).time.paused == old(self).time.paused,
            // a paused clock freezes the integrator: no surviving body's
            // orbital state moves (collisions are still processed)
            old(self).time.paused ==> forall|id: EntityId|
                old(self).store.live(id) && #[trigger] final(self).store.live(id)
                    ==> final(self).store.body_of(id).orbital == old(self).store.body_of(
                    id,
                ).orbital,
            // this tick's fragments are live, stamped with this tick's
            // time, and not yet in the spatial index
            forall|j: int|
                0 <= j < spawned@.len() ==> final(self).store.live(#[trigger] spawned@[j]) && (
                final(self).store.body_of(spawned@[j]).debris matches Some(d)
                    && d.creation_time_ms == final(self).time.current_ms)
                    && final(self).store.body_of(spawned@[j]).indexed_position is None,
            // and they are invisible to this tick's pair set
            forall|j: int, k: int|
                0 <= j < spawned@.len() && 0 <= k < final(self).pairs.pairs@.len() ==> (
                #[trigger] spawned@[j]) != (#[trigger] final(self).pairs.pairs@[k]).first
                    && spawned@[j] != final(self).pairs.pairs@[k].second,
            // this tick's pair set is canonical and holds no pair twice
            forall|k: int|
                0 <= k < final(self).pairs.pairs@.len()
                    ==> (#[trigger] final(self).pairs.pairs@[k]).first.index
                    < final(self).pairs.pairs@[k].second.index,
            forall|k1: int, k2: int|
                0 <= k1 < k2 < final(self).pairs.pairs@.len()
                    ==> crate::ids::spec_pair_key(#[trigger] final(self).pairs.pairs@[k1])
                    != crate::ids::spec_pair_key(#[trigger] final(self).pairs.pairs@[k2]),
    {
        self.time.advance(wall_delta_ms);
        if !self.time.paused {
            let dt = self.time.timestep_ms;
            self.integrate_all(dt);
        }
        self.reindex();
        let pairs = detect_collisions(&self.store, &self.octree.root, self.tick_index);
        let ghost pre_gen = self.store;
        let mut counter = self.collision_counter;
        let spawned = generate_debris(
            &mut self.store,
            &pairs,
            &mut self.rng,
            &mut counter,
            self.time.current_ms,
        );
        self.collision_counter = counter;
        self.pairs = pairs;
        self.tick_index = self.tick_index + 1;
        proof {
            assert forall|id: EntityId| #[trigger] self.store.live(id) implies match self.store.body_of(
                id,
            ).indexed_position {
                Some(p) => self.octree.root.contents().contains((id, p)),
                None => true,
            } by {
                if pre_gen.live(id) && self.store.body_of(id) == pre_gen.body_of(id) {
                } else {
                    assert(self.store.body_of(id).indexed_position is None);
                }
            }
            assert forall|id: EntityId, p: Vec3| self.store.live(id) implies
                #[trigger] self.octree.root.contents().count((id, p)) == if self.store.body_of(
                id,
            ).indexed_position == Some(p) {
                1int
            } else {
                0int
            } by {
                if pre_gen.live(id) {
                    assert(self.store.body_of(id) == pre_gen.body_of(id));
                } else {
                    // a fragment: no entry can name it, since any entry's
                    // generation had already been reached before it spawned
                    assert(self.store.body_of(id).indexed_position is None);
                    if self.octree.root.contents().count((id, p)) > 0 {
                        assert((id.index as int) < pre_gen.slots@.len());
                        assert(id.generation <= pre_gen.slots@[id.index as int].generation);
                        assert(pre_gen.slots@[id.index as int].generation <= self.store.slots@[
                            id.index as int].generation);
                        assert(self.store.slots@[id.index as int].generation == id.generation);
                        assert(pre_gen.slots@[id.index as int].generation == id.generation);
                        assert(pre_gen.live(id));
                        assert(false);
                    }
                }
            }
            assert forall|id: EntityId, p: Vec3|
                #[trigger] self.octree.root.contents().count((id, p)) > 0 implies (
            id.index as int) < self.store.slots@.len() && id.generation <= self.store.slots@[
                id.index as int].generation && (id.generation == self.store.slots@[
                id.index as int].generation ==> self.store.live(id) && self.store.body_of(
                id,
            ).indexed_position == Some(p)) by {
                assert((id.index as int) < pre_gen.slots@.len());
                assert(id.generation <= pre_gen.slots@[id.index as int].generation);
                assert(pre_gen.slots@[id.index as int].generation <= self.store.slots@[
                    id.index as int].generation);
                if id.generation == self.store.slots@[id.index as int].generation {
                    assert(pre_gen.slots@[id.index as int].generation == id.generation);
                    assert(pre_gen.live(id));
                    assert(pre_gen.body_of(id).indexed_position == Some(p));
                    assert(pre_gen.slots@[id.index as int].body is Some);
                    assert(self.store.slots@[id.index as int] == pre_gen.slots@[
                        id.index as int]);
                    assert(self.store.live(id));
                }
            }
            if old(self).time.paused {
                assert forall|id: EntityId|
                    old(self).store.live(id) && #[trigger] self.store.live(id) implies
                    self.store.body_of(id).orbital == old(self).store.body_of(id).orbital by {
                    assert(pre_gen.live(id));
                    assert(self.store.body_of(id) == pre_gen.body_of(id));
                    assert(pre_gen.body_of(id).orbital == old(self).store.body_of(id).orbital);
                }
            }
            assert forall|j: int, k: int|
                0 <= j < spawned@.len() && 0 <= k < self.pairs.pairs@.len() implies (
            #[trigger] spawned@[j]) != (#[trigger] self.pairs.pairs@[k]).first && spawned@[j]
                != self.pairs.pairs@[k].second by {
                assert(!pre_gen.live(spawned@[j]));
                assert(crate::collision::spec_confirmed(
                    pre_gen,
                    self.pairs.pairs@[k].first,
                    self.pairs.pairs@[k].second,
                ));
            }
        }
        spawned
    }
}

/// How a body advances in one step: the configured integrator's exact
/// result when it stays within the kernel's numeric range, the unchanged
/// body otherwise.
pub open spec fn spec_integrated_body(body: Body, gm: u64, dt_ms: u64, use_rk4: bool) -> Body {
    let stepped = if use_rk4 {
        spec_rk4_step(body.orbital.position, body.orbital.velocity, gm, dt_ms)
    } else {
        spec_euler_step(body.orbital.position, body.orbital.velocity, gm, dt_ms)
    };
    let candidate = OrbitalState {
        position: stepped.0,
        velocity: stepped.1,
        mass_mg: body.orbital.mass_mg,
    };
    if spec_state_valid(candidate) {
        Body { orbital: candidate, ..body }
    } else {
        body
    }
}

} // verus!
