//! Entity identity and canonical collision pairs.
//!
//! Bodies are addressed by a generational index: a slot in the store plus a
//! generation counter, so a reference to a despawned body is detectable
//! instead of silently dangling. A collision pair is stored canonically
//! (lower slot index first) so that the same unordered pair is never kept
//! twice.

use vstd::prelude::*;

verus! {

/// Identity of a tracked body: a store slot plus the generation counter the
/// slot had when the body was spawned.
#[derive(Clone, Copy, PartialEq, Eq, Structural, Debug, Hash)]
pub struct EntityId {
    /// Index of the slot in the store.
    pub index: u32,
    /// Generation of the slot at spawn time.
    pub generation: u32,
}

impl EntityId {
    pub fn new(index: u32, generation: u32) -> (id: EntityId)
        ensures
            id.index == index,
            id.generation == generation,
    {
        EntityId { index, generation }
    }
}

/// An unordered pair of entities, canonicalized: the body with the lower
/// slot index always comes first.
#[derive(Clone, Copy, PartialEq, Eq, Structural, Debug)]
pub struct CollisionPair {
    pub first: EntityId,
    pub second: EntityId,
}

/// What `canonical_pair` returns: the argument with the lower slot index
/// first, ties kept in argument order.
pub open spec fn spec_canonical_pair(a: EntityId, b: EntityId) -> CollisionPair {
    if a.index < b.index {
        CollisionPair { first: a, second: b }
    } else {
        CollisionPair { first: b, second: a }
    }
}

/// Canonicalize an unordered pair: the entity with the lower slot index is
/// put first, so `(a, b)` and `(b, a)` yield the same stored value.
pub fn canonical_pair(a: EntityId, b: EntityId) -> (pair: CollisionPair)
    ensures
        pair == spec_canonical_pair(a, b),
        pair.first.index <= pair.second.index,
{
    if a.index < b.index {
        CollisionPair { first: a, second: b }
    } else {
        CollisionPair { first: b, second: a }
    }
}

/// Canonicalizing `(a, b)` and `(b, a)` always yields the same pair, so an
/// unordered pair has exactly one stored form and cannot enter a pair set
/// twice under swapped orders.
pub proof fn lemma_canonical_pair_symmetric(a: EntityId, b: EntityId)
    ensures
        spec_canonical_pair(a, b) == spec_canonical_pair(b, a) || a.index == b.index,
        a.index != b.index ==> spec_canonical_pair(a, b) == spec_canonical_pair(b, a),
{
}

/// A canonical pair packed into one integer, used as the key of the
/// deduplication set: the lower slot index in the high 32 bits.
pub open spec fn spec_pair_key(pair: CollisionPair) -> int {
    pair.first.index * 0x1_0000_0000 + pair.second.index
}

/// Pack a canonical pair into the 64-bit key used by the deduplication set.
pub fn pair_key(pair: &CollisionPair) -> (key: u64)
    ensures
        key == spec_pair_key(*pair),
{
    pair.first.index as u64 * 0x1_0000_0000 + pair.second.index as u64
}

/// Two canonical pairs with the same key name the same slots: the packed
/// key loses nothing about which slots collide.
pub proof fn lemma_pair_key_injective(p: CollisionPair, q: CollisionPair)
    requires
        spec_pair_key(p) == spec_pair_key(q),
    ensures
        p.first.index == q.first.index,
        p.second.index == q.second.index,
{
    assert(p.first.index == q.first.index && p.second.index == q.second.index) by (nonlinear_arith)
        requires
            p.first.index * 0x1_0000_0000 + p.second.index == q.first.index * 0x1_0000_0000
                + q.second.index,
            p.second.index < 0x1_0000_0000,
            q.second.index < 0x1_0000_0000,
    ;
}

} // verus!
