//! The debris generator: consumes confirmed collision pairs, removes the
//! two bodies and spawns fragments, closing the cascade loop.
//!
//! Per pair, with both bodies still alive and neither claimed by an
//! earlier pair this tick: the collision point is the midpoint of the two
//! positions, the energy is half the combined mass times the squared
//! relative speed, the fragment count follows the bounded breakup model,
//! and each fragment starts at the collision point with the average parent
//! velocity plus a random kick of between a tenth and a half of the
//! relative speed. A tenth of the combined mass is spread evenly over the
//! fragments; both parents are destroyed exactly once. A pair one of whose
//! bodies is already gone or claimed, or whose combined mass is zero, is
//! skipped with no change at all (first pair to claim a body wins).

use vstd::prelude::*;
use vstd::hash_set::HashSetWithView;

use crate::bodies::{Debris, OrbitalState, PhysicsObject, spec_state_valid, MASS_LIMIT_MG,
    POS_LIMIT_MM, VEL_LIMIT_MM_S};
use crate::collision::{CollisionPairs, RADIUS_LIMIT_MM, spec_store_geometry_ok};
use crate::debris_model::{collision_energy_j, debris_count, fragment_mass_mg,
    spec_collision_energy_j, spec_debris_count, spec_fragment_mass_mg};
use crate::ids::{CollisionPair, EntityId};
use crate::math::{Vec3, midpoint, spec_isqrt, spec_midpoint, spec_norm_sq};
use crate::physics::{scaled_i64, lemma_scaled_frac_le};
use crate::rng::{rng_range_u64};
use crate::store::{Body, Store};

verus! {

/// The cascade depth of debris born from two parents: one more than the
/// deepest parent, where a non-debris parent counts as depth zero;
/// saturates at the counter's ceiling.
pub open spec fn spec_child_generation(b1: Body, b2: Body) -> u32 {
    let g1 = match b1.debris {
        Some(d) => d.generation,
        None => 0,
    };
    let g2 = match b2.debris {
        Some(d) => d.generation,
        None => 0,
    };
    let g = if g1 >= g2 {
        g1
    } else {
        g2
    };
    if g < 0xffff_ffff {
        (g + 1) as u32
    } else {
        g
    }
}

/// Compute the cascade depth for fragments of two parents.
pub fn child_generation(b1: &Body, b2: &Body) -> (g: u32)
    ensures
        g == spec_child_generation(*b1, *b2),
{
    let g1: u32 = match &b1.debris {
        Some(d) => d.generation,
        None => 0,
    };
    let g2: u32 = match &b2.debris {
        Some(d) => d.generation,
        None => 0,
    };
    let g: u32 = if g1 >= g2 {
        g1
    } else {
        g2
    };
    if g < 0xffff_ffff_u32 {
        g + 1
    } else {
        g
    }
}

/// A random direction as a milli-unit vector: each component in
/// `[-1000, 1000]`, not all zero. Sampled by rejection from the cube and
/// normalized; after too many rejections a fixed axis is used, so the call
/// always returns.
fn random_direction_milli(rng: &mut rand::rngs::StdRng) -> (d: Vec3)
    ensures
        -1000 <= d.x <= 1000,
        -1000 <= d.y <= 1000,
        -1000 <= d.z <= 1000,
        !(d.x == 0 && d.y == 0 && d.z == 0),
{
    let mut tries: u32 = 0;
    while tries < 16
        invariant
            tries <= 16,
        decreases 16 - tries,
    {
        let rx: i64 = rng_range_u64(rng, 0, 2001) as i64 - 1000;
        let ry: i64 = rng_range_u64(rng, 0, 2001) as i64 - 1000;
        let rz: i64 = rng_range_u64(rng, 0, 2001) as i64 - 1000;
        let raw = Vec3 { x: rx, y: ry, z: rz };
        let nsq: i128 = raw.norm_sq();
        if 0 < nsq && nsq <= 1000 * 1000 {
            let n: u64 = raw.norm();
            proof {
                crate::math::lemma_isqrt_bounds(crate::math::spec_norm_sq(raw) as nat);
                assert(n >= 1) by (nonlinear_arith)
                    requires
                        crate::math::spec_norm_sq(raw) >= 1,
                        crate::math::spec_norm_sq(raw) < ((n as int) + 1) * ((n as int) + 1),
                        n >= 0,
                ;
                crate::physics::lemma_axis_within_radius(raw);
                lemma_scaled_frac_le(raw.x as int, 1000, n as int);
                lemma_scaled_frac_le(raw.y as int, 1000, n as int);
                lemma_scaled_frac_le(raw.z as int, 1000, n as int);
                // the longest axis scales to at least half the unit length
                assert(3 * (raw.x * raw.x) >= crate::math::spec_norm_sq(raw) || 3 * (raw.y
                    * raw.y) >= crate::math::spec_norm_sq(raw) || 3 * (raw.z * raw.z)
                    >= crate::math::spec_norm_sq(raw)) by (nonlinear_arith);
                lemma_long_axis_scales(raw.x as int, n as int, crate::math::spec_norm_sq(raw));
                lemma_long_axis_scales(raw.y as int, n as int, crate::math::spec_norm_sq(raw));
                lemma_long_axis_scales(raw.z as int, n as int, crate::math::spec_norm_sq(raw));
            }
            let dx: i64 = scaled_i64(raw.x, 1000, n);
            let dy: i64 = scaled_i64(raw.y, 1000, n);
            let dz: i64 = scaled_i64(raw.z, 1000, n);
            return Vec3 { x: dx, y: dy, z: dz };
        }
        tries = tries + 1;
    }
    Vec3 { x: 1000, y: 0, z: 0 }
}

/// An axis that carries at least a third of a vector's squared length
/// scales under the milli-unit normalization to at least half the unit
/// length, so the normalized vector cannot vanish.
proof fn lemma_long_axis_scales(c: int, n: int, nsq: int)
    requires
        n >= 1,
        n * n <= nsq,
        nsq < (n + 1) * (n + 1),
    ensures
        3 * (c * c) >= nsq ==> crate::physics::spec_scaled(c, 1000, n) >= 500
            || crate::physics::spec_scaled(c, 1000, n) <= -500,
{
    if 3 * (c * c) >= nsq {
        let m = if c >= 0 {
            c
        } else {
            -c
        };
        assert(m * m == c * c) by (nonlinear_arith)
            requires
                m == c || m == -c,
        ;
        assert(2 * m > n) by (nonlinear_arith)
            requires
                3 * (m * m) >= nsq,
                n * n <= nsq,
                n >= 1,
                m >= 0,
        ;
        assert(m * 1000 >= 500 * n + 500) by (nonlinear_arith)
            requires
                2 * m >= n + 1,
        ;
        assert((m * 1000) / n >= 500) by {
            vstd::arithmetic::div_mod::lemma_div_is_ordered(
                500 * n + 500,
                m * 1000,
                n,
            );
            assert(500 * n + 500 > 500 * n) by (nonlinear_arith)
                requires
                    n >= 1,
            ;
            assert((500 * n) / n == 500) by {
                vstd::arithmetic::div_mod::lemma_div_multiples_vanish(500, n);
                assert(500 * n == n * 500) by (nonlinear_arith);
            }
            vstd::arithmetic::div_mod::lemma_div_is_ordered(500 * n, 500 * n + 500, n);
        }
    }
}

/// The relative velocity of two colliding bodies: the second's minus the
/// first's, per component (mm/s).
pub open spec fn spec_rel_velocity(b1: Body, b2: Body) -> Vec3 {
    Vec3 {
        x: (b2.orbital.velocity.x - b1.orbital.velocity.x) as i64,
        y: (b2.orbital.velocity.y - b1.orbital.velocity.y) as i64,
        z: (b2.orbital.velocity.z - b1.orbital.velocity.z) as i64,
    }
}

/// The relative speed of two colliding bodies, rounded down (mm/s).
pub open spec fn spec_rel_speed(b1: Body, b2: Body) -> int {
    spec_isqrt(spec_norm_sq(spec_rel_velocity(b1, b2)) as nat) as int
}

/// A fragment's velocity obeys the kick law's envelope: the parents'
/// average velocity plus a random kick of at most half the relative speed
/// on each axis (the drawn kick factor lies below one half).
pub open spec fn spec_fragment_kick_ok(v: Vec3, b1: Body, b2: Body) -> bool {
    let avg = spec_midpoint(b1.orbital.velocity, b2.orbital.velocity);
    let rs = spec_rel_speed(b1, b2);
    &&& avg.x - rs / 2 <= v.x <= avg.x + rs / 2
    &&& avg.y - rs / 2 <= v.y <= avg.y + rs / 2
    &&& avg.z - rs / 2 <= v.z <= avg.z + rs / 2
}

/// Whether every possible fragment velocity of this pair stays within the
/// kernel's numeric range: the average parent velocity keeps half the
/// relative speed of headroom on each axis. It holds in particular
/// whenever the relative speed is zero.
pub open spec fn spec_kick_headroom(b1: Body, b2: Body) -> bool {
    let avg = spec_midpoint(b1.orbital.velocity, b2.orbital.velocity);
    let rs = spec_rel_speed(b1, b2);
    &&& -VEL_LIMIT_MM_S <= avg.x - rs / 2 && avg.x + rs / 2 <= VEL_LIMIT_MM_S
    &&& -VEL_LIMIT_MM_S <= avg.y - rs / 2 && avg.y + rs / 2 <= VEL_LIMIT_MM_S
    &&& -VEL_LIMIT_MM_S <= avg.z - rs / 2 && avg.z + rs / 2 <= VEL_LIMIT_MM_S
}

/// Process one confirmed pair. Returns the spawned fragment identities on
/// success; `None` — with the store and the claimed set untouched — when a
/// body is already gone or already claimed this tick, when the combined
/// mass is zero, or when a sampled fragment state would leave the kernel's
/// numeric range; when both bodies are live, unclaimed, of positive
/// combined mass and with kick headroom, success is guaranteed. On success
/// both parents are destroyed exactly once, both are claimed, and each
/// fragment is live at the collision midpoint with the modeled mass,
/// lineage, generation and a velocity in the kick law's envelope; every
/// body not in the pair is untouched.
pub fn process_pair(
    store: &mut Store,
    pair: &CollisionPair,
    rng: &mut rand::rngs::StdRng,
    collision_id: u32,
    now_ms: u64,
    claimed: &mut HashSetWithView<u64>,
) -> (spawned: Option<Vec<EntityId>>)
    requires
        old(store).wf(),
        spec_store_geometry_ok(*old(store)),
        old(store).slots@.len() + 64 < 0xffff_ffff,
    ensures
        final(store).wf(),
        spec_store_geometry_ok(*final(store)),
        final(store).slots@.len() <= old(store).slots@.len() + 64,
        match spawned {
            None => *final(store) == *old(store) && final(claimed)@ == old(claimed)@,
            Some(frs) => {
                let b1 = old(store).body_of(pair.first);
                let b2 = old(store).body_of(pair.second);
                let total = (b1.orbital.mass_mg + b2.orbital.mass_mg) as nat;
                let rel = spec_rel_velocity(b1, b2);
                let count = spec_debris_count(
                    spec_collision_energy_j(total, rel) as nat,
                    total,
                );
                &&& old(store).live(pair.first)
                &&& old(store).live(pair.second)
                &&& !old(claimed)@.contains(pair.first.index as u64)
                &&& !old(claimed)@.contains(pair.second.index as u64)
                &&& (forall|x: u64|
                    old(claimed)@.contains(x) ==> #[trigger] final(claimed)@.contains(x))
                &&& final(claimed)@.contains(pair.first.index as u64)
                &&& final(claimed)@.contains(pair.second.index as u64)
                &&& (forall|j: int|
                    0 <= j < frs@.len() ==> final(claimed)@.contains(
                        (#[trigger] frs@[j]).index as u64,
                    ))
                &&& total > 0
                &&& frs@.len() == count
                &&& !final(store).live(pair.first)
                &&& !final(store).live(pair.second)
                &&& (forall|j: int|
                    0 <= j < frs@.len() ==> {
                        let body = final(store).body_of(#[trigger] frs@[j]);
                        &&& final(store).live(frs@[j])
                        &&& body.orbital.position == spec_midpoint(
                            b1.orbital.position,
                            b2.orbital.position,
                        )
                        &&& body.orbital.mass_mg == spec_fragment_mass_mg(total, count)
                        &&& body.debris == Some(
                            Debris {
                                parent_collision: Some(collision_id),
                                generation: spec_child_generation(b1, b2),
                                creation_time_ms: now_ms,
                            },
                        )
                        &&& body.indexed_position is None
                        &&& spec_fragment_kick_ok(body.orbital.velocity, b1, b2)
                    })
                &&& (forall|other: EntityId|
                    old(store).live(other) && other != pair.first && other != pair.second
                        ==> #[trigger] final(store).live(other) && final(store).body_of(other)
                        == old(store).body_of(other))
                &&& (forall|id2: EntityId|
                    #[trigger] final(store).live(id2) ==> old(store).live(id2) || frs@.contains(
                        id2,
                    ))
                &&& (forall|j: int|
                    0 <= j < frs@.len() ==> !old(store).live(#[trigger] frs@[j]))
                &&& final(store).slots@[pair.first.index as int].generation
                    > pair.first.generation
                &&& final(store).slots@[pair.second.index as int].generation
                    > pair.second.generation
            },
        },
        // slot generations never move backwards, and a kept generation
        // under a live body means an untouched slot
        forall|k: int|
            0 <= k < old(store).slots@.len() ==> (#[trigger] final(store).slots@[k]).generation
                >= old(store).slots@[k].generation,
        forall|k: int|
            0 <= k < old(store).slots@.len() && final(store).slots@[k].generation
                == old(store).slots@[k].generation && (#[trigger] old(store).slots@[k]).body
                is Some ==> final(store).slots@[k] == old(store).slots@[k],
        final(store).slots@.len() >= old(store).slots@.len(),
        // success is owed when nothing stands in the way: both live and
        // unclaimed, positive combined mass, kick headroom
        ({
            let b1 = old(store).body_of(pair.first);
            let b2 = old(store).body_of(pair.second);
            &&& old(store).live(pair.first)
            &&& old(store).live(pair.second)
            &&& !old(claimed)@.contains(pair.first.index as u64)
            &&& !old(claimed)@.contains(pair.second.index as u64)
            &&& b1.orbital.mass_mg + b2.orbital.mass_mg > 0
            &&& spec_kick_headroom(b1, b2)
        }) ==> spawned is Some,
{
    broadcast use vstd::std_specs::hash::group_hash_axioms;

    if claimed.contains(&(pair.first.index as u64)) || claimed.contains(
        &(pair.second.index as u64),
    ) {
        return None;
    }
    let b1 = match store.get(pair.first) {
        Some(b) => b,
        None => {
            return None;
        },
    };
    let b2 = match store.get(pair.second) {
        Some(b) => b,
        None => {
            return None;
        },
    };
    let total: u64 = b1.orbital.mass_mg + b2.orbital.mass_mg;
    if total == 0 {
        return None;
    }
    let mid = midpoint(&b1.orbital.position, &b2.orbital.position);
    let rel = b2.orbital.velocity.sub(&b1.orbital.velocity);
    let avg = crate::math::midpoint(&b1.orbital.velocity, &b2.orbital.velocity);
    let energy: u128 = collision_energy_j(b1.orbital.mass_mg, b2.orbital.mass_mg, &rel);
    let count: u32 = debris_count(energy, total);
    let frag_mass: u64 = fragment_mass_mg(total, count);
    let generation: u32 = child_generation(&b1, &b2);
    let rel_speed: u64 = rel.norm();
    proof {
        assert(0 <= crate::math::spec_norm_sq(rel) <= 3 * (2_000_000_000 * 2_000_000_000_int))
            by (nonlinear_arith)
            requires
                -2_000_000_000 <= rel.x <= 2_000_000_000,
                -2_000_000_000 <= rel.y <= 2_000_000_000,
                -2_000_000_000 <= rel.z <= 2_000_000_000,
        ;
        assert(rel_speed <= 4_000_000_000) by (nonlinear_arith)
            requires
                (rel_speed as int) * (rel_speed as int) <= 3 * (2_000_000_000
                    * 2_000_000_000_int),
                rel_speed >= 0,
        ;
    }

    // sample all fragment states first: the pair is consumed all-or-nothing
    let mut states: Vec<OrbitalState> = Vec::new();
    let mut k: u32 = 0;
    while k < count
        invariant
            k <= count,
            states@.len() == k,
            *store == *old(store),
            claimed@ == old(claimed)@,
            store.wf(),
            spec_store_geometry_ok(*store),
            forall|j: int|
                0 <= j < states@.len() ==> spec_state_valid(#[trigger] states@[j]) && (
                #[trigger] states@[j]).position == spec_midpoint(
                    old(store).body_of(pair.first).orbital.position,
                    old(store).body_of(pair.second).orbital.position,
                ) && states@[j].mass_mg == frag_mass && spec_fragment_kick_ok(
                    states@[j].velocity,
                    old(store).body_of(pair.first),
                    old(store).body_of(pair.second),
                ),
            mid == spec_midpoint(
                old(store).body_of(pair.first).orbital.position,
                old(store).body_of(pair.second).orbital.position,
            ),
            b1 == old(store).body_of(pair.first),
            b2 == old(store).body_of(pair.second),
            old(store).live(pair.first),
            old(store).live(pair.second),
            avg == spec_midpoint(b1.orbital.velocity, b2.orbital.velocity),
            rel_speed as int == spec_rel_speed(b1, b2),
            rel_speed <= 4_000_000_000,
            -1_000_000_000 <= avg.x <= 1_000_000_000,
            -1_000_000_000 <= avg.y <= 1_000_000_000,
            -1_000_000_000 <= avg.z <= 1_000_000_000,
            -1_000_000_000_000_000 <= mid.x <= 1_000_000_000_000_000,
            -1_000_000_000_000_000 <= mid.y <= 1_000_000_000_000_000,
            -1_000_000_000_000_000 <= mid.z <= 1_000_000_000_000_000,
            2 <= count,
            total == b1.orbital.mass_mg + b2.orbital.mass_mg,
            total <= 2 * MASS_LIMIT_MG,
            frag_mass == crate::debris_model::spec_fragment_mass_mg(total as nat, count as nat),
        decreases count - k,
    {
        let dir = random_direction_milli(rng);
        let u_permille: u64 = rng_range_u64(rng, 100, 500);
        proof {
            assert(rel_speed * u_permille <= 4_000_000_000 * 500int) by (nonlinear_arith)
                requires
                    0 <= rel_speed <= 4_000_000_000,
                    0 <= u_permille <= 500,
            ;
        }
        let kick_scale: u64 = rel_speed * u_permille / 1000;
        proof {
            assert(rel_speed * u_permille / 1000 <= 2_000_000_000int) by {
                vstd::arithmetic::div_mod::lemma_div_is_ordered(
                    (rel_speed * u_permille) as int,
                    2_000_000_000_000int,
                    1000,
                );
            }
            lemma_scaled_frac_le(dir.x as int, kick_scale as int, 1000);
            lemma_scaled_frac_le(dir.y as int, kick_scale as int, 1000);
            lemma_scaled_frac_le(dir.z as int, kick_scale as int, 1000);
        }
        proof {
            // the kick never exceeds half the relative speed
            assert(rel_speed * u_permille <= rel_speed * 500) by (nonlinear_arith)
                requires
                    0 <= rel_speed,
                    u_permille <= 500,
            ;
            vstd::arithmetic::div_mod::lemma_div_is_ordered(
                (rel_speed * u_permille) as int,
                rel_speed * 500,
                1000,
            );
            assert(rel_speed * 500 == 500 * (rel_speed as int)) by (nonlinear_arith);
            vstd::arithmetic::div_mod::lemma_div_multiples_vanish(rel_speed as int, 500);
            vstd::arithmetic::div_mod::lemma_div_denominator(500 * (rel_speed as int), 500, 2);
            assert(kick_scale <= rel_speed / 2);
        }
        let kx: i64 = scaled_i64(dir.x, kick_scale, 1000);
        let ky: i64 = scaled_i64(dir.y, kick_scale, 1000);
        let kz: i64 = scaled_i64(dir.z, kick_scale, 1000);
        let velocity = Vec3 { x: avg.x + kx, y: avg.y + ky, z: avg.z + kz };
        let state = OrbitalState { position: mid, velocity, mass_mg: frag_mass };
        proof {
            assert(spec_fragment_kick_ok(velocity, b1, b2));
            // under kick headroom the sampled state cannot leave the range
            if spec_kick_headroom(b1, b2) {
                assert(frag_mass <= MASS_LIMIT_MG) by {
                    vstd::arithmetic::div_mod::lemma_div_is_ordered_by_denominator(
                        total as int,
                        20,
                        10 * count as int,
                    );
                    vstd::arithmetic::div_mod::lemma_div_is_ordered(
                        total as int,
                        2 * MASS_LIMIT_MG as int,
                        20,
                    );
                }
                assert(spec_state_valid(state));
            }
        }
        if !state.is_valid() {
            return None;
        }
        states.push(state);
        k = k + 1;
    }

    // commit: claim and destroy the parents, then spawn every fragment
    let ghost pre = *store;
    claimed.insert(pair.first.index as u64);
    claimed.insert(pair.second.index as u64);
    store.despawn(pair.first);
    let ghost mid1 = *store;
    store.despawn(pair.second);
    let physics = PhysicsObject::debris(frag_mass);
    proof {
        lemma_debris_radius_small(frag_mass);
    }
    let debris_tag = Debris {
        parent_collision: Some(collision_id),
        generation,
        creation_time_ms: now_ms,
    };
    proof {
        assert(states@.len() <= 64);
    }
    let mut out: Vec<EntityId> = Vec::new();
    let mut k2: usize = 0;
    let ghost after_despawn = *store;
    while k2 < states.len()
        invariant
            k2 <= states@.len(),
            out@.len() == k2,
            store.wf(),
            spec_store_geometry_ok(*store),
            store.slots@.len() <= after_despawn.slots@.len() + k2,
            after_despawn.slots@.len() <= store.slots@.len(),
            after_despawn.slots@.len() == old(store).slots@.len(),
            old(store).slots@.len() + 64 < 0xffff_ffff,
            k2 <= 64,
            states@.len() <= 64,
            physics.collision_radius_mm <= RADIUS_LIMIT_MM,
            forall|j: int|
                0 <= j < states@.len() ==> spec_state_valid(#[trigger] states@[j]) && (
                #[trigger] states@[j]).position == spec_midpoint(
                    pre.body_of(pair.first).orbital.position,
                    pre.body_of(pair.second).orbital.position,
                ) && states@[j].mass_mg == frag_mass,
            !store.live(pair.first),
            !store.live(pair.second),
            pair.first.index < store.slots@.len(),
            pair.second.index < store.slots@.len(),
            store.slots@[pair.first.index as int].generation > pair.first.generation,
            store.slots@[pair.second.index as int].generation > pair.second.generation,
            forall|k: int|
                0 <= k < after_despawn.slots@.len() ==> #[trigger] store.slots@[k].generation
                    >= after_despawn.slots@[k].generation,
            forall|k: int|
                0 <= k < after_despawn.slots@.len() && store.slots@[k].generation
                    == after_despawn.slots@[k].generation && (
                #[trigger] after_despawn.slots@[k]).body is Some ==> store.slots@[k]
                    == after_despawn.slots@[k],
            forall|j: int|
                0 <= j < out@.len() ==> {
                    let body = store.body_of(#[trigger] out@[j]);
                    &&& store.live(out@[j])
                    &&& body.orbital == states@[j]
                    &&& body.debris == Some(debris_tag)
                    &&& body.indexed_position is None
                },
            forall|other: EntityId|
                after_despawn.live(other) ==> #[trigger] store.live(other) && store.body_of(other)
                    == after_despawn.body_of(other),
            forall|other: EntityId|
                #[trigger] pre.live(other) && other != pair.first && other != pair.second
                    ==> after_despawn.live(other),
            forall|id2: EntityId|
                #[trigger] store.live(id2) ==> after_despawn.live(id2) || out@.contains(id2),
            forall|x: u64| old(claimed)@.contains(x) ==> #[trigger] claimed@.contains(x),
            claimed@.contains(pair.first.index as u64),
            claimed@.contains(pair.second.index as u64),
            forall|j: int|
                0 <= j < out@.len() ==> claimed@.contains((#[trigger] out@[j]).index as u64),
            forall|j: int| 0 <= j < out@.len() ==> !pre.live(#[trigger] out@[j]),
        decreases states@.len() - k2,
    {
        let state = states[k2];
        let ghost before = *store;
        let id = store.spawn(
            Body { orbital: state, physics, debris: Some(debris_tag), indexed_position: None },
        );
        proof {
            if id.index == pair.first.index {
                assert((id.index as int) < before.slots@.len());
                assert(before.slots@[id.index as int].generation == id.generation);
                assert(id.generation > pair.first.generation);
            }
            if id.index == pair.second.index {
                assert((id.index as int) < before.slots@.len());
                assert(before.slots@[id.index as int].generation == id.generation);
                assert(id.generation > pair.second.generation);
            }
            assert(!store.live(pair.first));
            assert(!store.live(pair.second));
            crate::octree::lemma_push_contains(out@, id);
            assert forall|id2: EntityId| #[trigger] store.live(id2) implies before.live(id2)
                || id2 == id by {
                if id2 != id {
                    assert(before.live(id2) == store.live(id2));
                }
            }
            // the new body was never the store's before this call
            assert(!pre.live(id)) by {
                if pre.live(id) {
                    assert(id != pair.first && id != pair.second);
                    assert(after_despawn.live(id));
                    assert(before.live(id));
                    assert(false);
                }
            }
            // generations at most grow
            assert forall|k: int|
                0 <= k < after_despawn.slots@.len() implies #[trigger] store.slots@[
                k].generation >= after_despawn.slots@[k].generation by {
                if k == id.index as int {
                    assert(store.slots@[k].generation == id.generation);
                    assert(before.slots@[k].generation == id.generation);
                } else {
                    assert(store.slots@[k] == before.slots@[k]);
                }
            }
            // a kept generation with a body means an untouched slot
            assert forall|k: int|
                0 <= k < after_despawn.slots@.len() && store.slots@[k].generation
                    == after_despawn.slots@[k].generation && (
            #[trigger] after_despawn.slots@[k]).body is Some implies store.slots@[k]
                == after_despawn.slots@[k] by {
                if k == id.index as int {
                    assert(store.slots@[k].generation == id.generation);
                    assert(before.slots@[k].generation == id.generation);
                    assert(before.slots@[k].generation == after_despawn.slots@[k].generation);
                    assert(before.slots@[k] == after_despawn.slots@[k]);
                    assert(before.slots@[k].body is None);
                    assert(false);
                } else {
                    assert(store.slots@[k] == before.slots@[k]);
                }
            }
        }
        claimed.insert(id.index as u64);
        out.push(id);
        k2 = k2 + 1;
    }
    proof {
        assert(pre == *old(store));
        assert forall|other: EntityId|
            old(store).live(other) && other != pair.first && other != pair.second implies
            #[trigger] store.live(other) && store.body_of(other) == old(store).body_of(other) by {
            assert(mid1.live(other) && mid1.body_of(other) == pre.body_of(other));
            assert(after_despawn.live(other) && after_despawn.body_of(other) == mid1.body_of(
                other,
            ));
        }
        assert forall|k: int|
            0 <= k < old(store).slots@.len() implies (#[trigger] store.slots@[k]).generation
            >= old(store).slots@[k].generation by {
            if k != pair.first.index as int && k != pair.second.index as int {
                assert(after_despawn.slots@[k] == pre.slots@[k]);
            } else {
                assert(after_despawn.slots@[k].generation >= pre.slots@[k].generation);
            }
        }
        assert forall|k: int|
            0 <= k < old(store).slots@.len() && store.slots@[k].generation == old(
            store,
        ).slots@[k].generation && (#[trigger] old(store).slots@[k]).body is Some implies
            store.slots@[k] == old(store).slots@[k] by {
            if k == pair.first.index as int || k == pair.second.index as int {
                assert(after_despawn.slots@[k].generation > pre.slots@[k].generation);
                assert(store.slots@[k].generation > old(store).slots@[k].generation);
                assert(false);
            } else {
                assert(after_despawn.slots@[k] == pre.slots@[k]);
            }
        }
    }
    Some(out)
}

/// A fragment's collision radius is far below the accepted ceiling: its
/// cube is the fragment's (bounded) mass.
proof fn lemma_debris_radius_small(mass_mg: u64)
    ensures
        crate::math::spec_icbrt((mass_mg / 2) as nat) <= RADIUS_LIMIT_MM,
{
    crate::math::lemma_icbrt_bounds((mass_mg / 2) as nat);
    let r = crate::math::spec_icbrt((mass_mg / 2) as nat);
    assert(r <= RADIUS_LIMIT_MM) by (nonlinear_arith)
        requires
            r * r * r <= mass_mg / 2,
            mass_mg <= 0xffff_ffff_ffff_ffff_u64,
            RADIUS_LIMIT_MM == 1_000_000_000_000_u64,
    ;
}

/// Run the generator over this tick's pair set: process the pairs in
/// order, first pair to claim a body wins, and return all fragments
/// spawned this tick. Fragments are claimed as they spawn, so no later
/// pair of the same tick can consume one: entity visibility stays one full
/// tick behind creation. The store stays well-formed and within the
/// kernel's numeric range; every spawned fragment is live and
/// debris-tagged with this tick's timestamp.
pub fn generate_debris(
    store: &mut Store,
    pairs: &CollisionPairs,
    rng: &mut rand::rngs::StdRng,
    collision_counter: &mut u32,
    now_ms: u64,
) -> (spawned: Vec<EntityId>)
    requires
        old(store).wf(),
        spec_store_geometry_ok(*old(store)),
    ensures
        final(store).wf(),
        spec_store_geometry_ok(*final(store)),
        forall|j: int|
            0 <= j < spawned@.len() ==> {
                let st = *final(store);
                st.live(#[trigger] spawned@[j]) && (st.body_of(spawned@[j]).debris matches Some(d)
                    && d.creation_time_ms == now_ms)
            },
        forall|id: EntityId|
            #[trigger] final(store).live(id) ==> (old(store).live(id) && final(store).body_of(id)
                == old(store).body_of(id)) || final(store).body_of(id).indexed_position is None,
        // a body that was live and still is was not touched at all
        forall|id: EntityId|
            old(store).live(id) && #[trigger] final(store).live(id) ==> final(store).body_of(id)
                == old(store).body_of(id),
        // slots only grow, generations never move backwards, and a kept
        // generation under a live body means an untouched slot
        final(store).slots@.len() >= old(store).slots@.len(),
        forall|k: int|
            0 <= k < old(store).slots@.len() ==> (#[trigger] final(store).slots@[k]).generation
                >= old(store).slots@[k].generation,
        forall|k: int|
            0 <= k < old(store).slots@.len() && final(store).slots@[k].generation
                == old(store).slots@[k].generation && (#[trigger] old(store).slots@[k]).body
                is Some ==> final(store).slots@[k] == old(store).slots@[k],
        // fragments are new bodies, not yet in the spatial index
        forall|j: int|
            0 <= j < spawned@.len() ==> !old(store).live(#[trigger] spawned@[j])
                && final(store).body_of(spawned@[j]).indexed_position is None,
        // the first pair claiming two live bodies of positive combined mass
        // with kick headroom is consumed: its bodies are gone and its
        // fragments stand at the front of the returned list
        ({
            let p0 = pairs.pairs@[0];
            let b1 = old(store).body_of(p0.first);
            let b2 = old(store).body_of(p0.second);
            &&& pairs.pairs@.len() > 0
            &&& old(store).slots@.len() < 0xffff_ff00
            &&& old(store).live(p0.first)
            &&& old(store).live(p0.second)
            &&& b1.orbital.mass_mg + b2.orbital.mass_mg > 0
            &&& spec_kick_headroom(b1, b2)
        }) ==> ({
            let p0 = pairs.pairs@[0];
            let b1 = old(store).body_of(p0.first);
            let b2 = old(store).body_of(p0.second);
            let total = (b1.orbital.mass_mg + b2.orbital.mass_mg) as nat;
            &&& !final(store).live(p0.first)
            &&& !final(store).live(p0.second)
            &&& spawned@.len() >= spec_debris_count(
                spec_collision_energy_j(total, spec_rel_velocity(b1, b2)) as nat,
                total,
            )
        }),
{
    broadcast use vstd::std_specs::hash::group_hash_axioms;

    let ghost first_ready = pairs.pairs@.len() > 0 && old(store).slots@.len() < 0xffff_ff00
        && old(store).live(pairs.pairs@[0].first) && old(store).live(pairs.pairs@[0].second)
        && old(store).body_of(pairs.pairs@[0].first).orbital.mass_mg + old(store).body_of(
        pairs.pairs@[0].second,
    ).orbital.mass_mg > 0 && spec_kick_headroom(
        old(store).body_of(pairs.pairs@[0].first),
        old(store).body_of(pairs.pairs@[0].second),
    );
    let ghost first_count = {
        let p0 = pairs.pairs@[0];
        let b1 = old(store).body_of(p0.first);
        let b2 = old(store).body_of(p0.second);
        let total = (b1.orbital.mass_mg + b2.orbital.mass_mg) as nat;
        spec_debris_count(spec_collision_energy_j(total, spec_rel_velocity(b1, b2)) as nat, total)
    };
    let mut claimed: HashSetWithView<u64> = HashSetWithView::new();
    let mut spawned: Vec<EntityId> = Vec::new();
    let n = pairs.pairs.len();
    let mut i: usize = 0;
    while i < n
        invariant
            i <= n,
            n == pairs.pairs@.len(),
            store.wf(),
            spec_store_geometry_ok(*store),
            forall|id: EntityId|
                #[trigger] store.live(id) ==> (old(store).live(id) && store.body_of(id) == old(
                    store,
                ).body_of(id)) || store.body_of(id).indexed_position is None,
            forall|j: int|
                0 <= j < spawned@.len() ==> store.live(#[trigger] spawned@[j]) && (store.body_of(
                    spawned@[j],
                ).debris matches Some(d) && d.creation_time_ms == now_ms) && claimed@.contains(
                    spawned@[j].index as u64,
                ) && store.body_of(spawned@[j]).indexed_position is None && !old(store).live(
                    spawned@[j],
                ),
            i == 0 ==> claimed@ == Set::<u64>::empty() && spawned@.len() == 0 && *store == *old(
                store,
            ),
            first_ready == ({
                let p0 = pairs.pairs@[0];
                let b1 = old(store).body_of(p0.first);
                let b2 = old(store).body_of(p0.second);
                &&& pairs.pairs@.len() > 0
                &&& old(store).slots@.len() < 0xffff_ff00
                &&& old(store).live(p0.first)
                &&& old(store).live(p0.second)
                &&& b1.orbital.mass_mg + b2.orbital.mass_mg > 0
                &&& spec_kick_headroom(b1, b2)
            }),
            first_count == ({
                let p0 = pairs.pairs@[0];
                let b1 = old(store).body_of(p0.first);
                let b2 = old(store).body_of(p0.second);
                let total = (b1.orbital.mass_mg + b2.orbital.mass_mg) as nat;
                spec_debris_count(
                    spec_collision_energy_j(total, spec_rel_velocity(b1, b2)) as nat,
                    total,
                )
            }),
            forall|k: int|
                0 <= k < old(store).slots@.len() ==> (#[trigger] store.slots@[k]).generation
                    >= old(store).slots@[k].generation,
            forall|k: int|
                0 <= k < old(store).slots@.len() && store.slots@[k].generation
                    == old(store).slots@[k].generation && (#[trigger] old(store).slots@[k]).body
                    is Some ==> store.slots@[k] == old(store).slots@[k],
            old(store).slots@.len() <= store.slots@.len(),
            forall|id: EntityId|
                #[trigger] old(store).live(id) ==> (store.live(id) && store.body_of(id) == old(
                    store,
                ).body_of(id)) || store.slots@[id.index as int].generation > id.generation,
            (first_ready && i > 0) ==> store.slots@[pairs.pairs@[0].first.index as int].generation
                > pairs.pairs@[0].first.generation
                && store.slots@[pairs.pairs@[0].second.index as int].generation
                > pairs.pairs@[0].second.generation && spawned@.len() >= first_count,
        decreases n - i,
    {
        if store.slot_len() >= 0xffff_ff00 {
            // within a whisker of the arena's capacity: shed the remaining
            // pairs this tick rather than overflow
            proof {
                if i == 0 && first_ready {
                    assert(false);
                }
            }
            i = i + 1;
            continue;
        }
        let pair = pairs.pairs[i];
        let ghost pre = *store;
        let ghost pre_spawned = spawned@;
        let ghost pre_claimed = claimed@;
        let result = process_pair(store, &pair, rng, *collision_counter, now_ms, &mut claimed);
        match result {
            Some(mut frs) => {
                if *collision_counter < 0xffff_ffff_u32 {
                    *collision_counter = *collision_counter + 1;
                }
                let ghost frs_snap = frs@;
                spawned.append(&mut frs);
                proof {
                    assert(spawned@ == pre_spawned + frs_snap);
                    assert forall|id: EntityId| #[trigger] store.live(id) implies (old(
                        store,
                    ).live(id) && store.body_of(id) == old(store).body_of(id)) || store.body_of(
                        id,
                    ).indexed_position is None by {
                        if pre.live(id) {
                            assert(id != pair.first && id != pair.second);
                            assert(store.body_of(id) == pre.body_of(id));
                        } else {
                            assert(frs_snap.contains(id));
                            let j = choose|j: int|
                                0 <= j < frs_snap.len() && frs_snap[j] == id;
                            assert(store.body_of(frs_snap[j]).indexed_position is None);
                        }
                    }
                    // every ledger the loop keeps: liveness and lineage of
                    // what was spawned, generation growth, the untouched
                    // survivors, and the settled first pair
                    assert forall|j: int|
                        0 <= j < spawned@.len() implies store.live(#[trigger] spawned@[j]) && (
                    store.body_of(spawned@[j]).debris matches Some(d) && d.creation_time_ms
                        == now_ms) && claimed@.contains(spawned@[j].index as u64) && store.body_of(
                        spawned@[j],
                    ).indexed_position is None && !old(store).live(spawned@[j]) by {
                        if j < pre_spawned.len() {
                            assert(spawned@[j] == pre_spawned[j]);
                            let id = pre_spawned[j];
                            assert(pre.live(id));
                            assert(pre_claimed.contains(id.index as u64));
                            assert(!pre_claimed.contains(pair.first.index as u64));
                            assert(!pre_claimed.contains(pair.second.index as u64));
                            assert(id.index != pair.first.index);
                            assert(id.index != pair.second.index);
                            assert(id != pair.first && id != pair.second);
                            assert(store.live(id));
                            assert(store.body_of(id) == pre.body_of(id));
                            assert(claimed@.contains(id.index as u64));
                        } else {
                            assert(spawned@[j] == frs_snap[j - pre_spawned.len()]);
                            let id = frs_snap[j - pre_spawned.len()];
                            assert(!pre.live(id));
                            if old(store).live(id) {
                                assert((store.live(id) && store.body_of(id) == old(
                                    store,
                                ).body_of(id)) || pre.slots@[id.index as int].generation
                                    > id.generation) by {
                                    assert(pre.live(id) || pre.slots@[id.index as int].generation
                                        > id.generation);
                                }
                                assert(pre.slots@[id.index as int].generation > id.generation);
                                assert(store.slots@[id.index as int].generation > id.generation);
                                assert(store.live(id));
                                assert(false);
                            }
                        }
                    }
                    assert forall|k: int|
                        0 <= k < old(store).slots@.len() implies (
                    #[trigger] store.slots@[k]).generation >= old(store).slots@[k].generation by {
                        assert(pre.slots@[k].generation >= old(store).slots@[k].generation);
                        assert(store.slots@[k].generation >= pre.slots@[k].generation);
                    }
                    assert forall|k: int|
                        0 <= k < old(store).slots@.len() && store.slots@[k].generation == old(
                        store,
                    ).slots@[k].generation && (#[trigger] old(store).slots@[k]).body
                        is Some implies store.slots@[k] == old(store).slots@[k] by {
                        assert(pre.slots@[k].generation >= old(store).slots@[k].generation);
                        assert(store.slots@[k].generation >= pre.slots@[k].generation);
                        assert(pre.slots@[k].generation == old(store).slots@[k].generation);
                        assert(pre.slots@[k] == old(store).slots@[k]);
                        assert(store.slots@[k] == pre.slots@[k]);
                    }
                    assert forall|id: EntityId| #[trigger] old(store).live(id) implies (store.live(
                        id,
                    ) && store.body_of(id) == old(store).body_of(id)) || store.slots@[
                        id.index as int].generation > id.generation by {
                        if pre.live(id) && pre.body_of(id) == old(store).body_of(id) {
                            if id == pair.first || id == pair.second {
                                assert(store.slots@[id.index as int].generation > id.generation);
                            } else {
                                assert(store.live(id) && store.body_of(id) == pre.body_of(id));
                            }
                        } else {
                            assert(pre.slots@[id.index as int].generation > id.generation);
                            assert(store.slots@[id.index as int].generation >= pre.slots@[
                                id.index as int].generation);
                        }
                    }
                    if first_ready {
                        let ghost p0 = pairs.pairs@[0];
                        if i == 0 {
                            assert(pair == p0);
                            assert(frs_snap.len() == first_count);
                            assert(spawned@.len() >= first_count);
                            assert(store.slots@[p0.first.index as int].generation
                                > p0.first.generation);
                            assert(store.slots@[p0.second.index as int].generation
                                > p0.second.generation);
                        } else {
                            assert(p0.first.index < old(store).slots@.len());
                            assert(p0.second.index < old(store).slots@.len());
                            assert(store.slots@[p0.first.index as int].generation >= pre.slots@[
                                p0.first.index as int].generation);
                            assert(store.slots@[p0.second.index as int].generation >= pre.slots@[
                                p0.second.index as int].generation);
                        }
                    }
                }
            },
            None => {
                proof {
                    if i == 0 && first_ready {
                        assert(false);
                    }
                }
            },
        }
        i = i + 1;
    }
    proof {
        assert forall|id: EntityId|
            old(store).live(id) && #[trigger] store.live(id) implies store.body_of(id) == old(
            store,
        ).body_of(id) by {
            if store.slots@[id.index as int].generation > id.generation {
                assert(!store.live(id));
            }
        }
        if first_ready {
            assert(!store.live(pairs.pairs@[0].first));
            assert(!store.live(pairs.pairs@[0].second));
        }
    }
    spawned
}

} // verus!
