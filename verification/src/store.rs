//! The orbital state store: a generational arena of bodies.
//!
//! Every body lives in a slot; a slot carries a generation counter that is
//! bumped when its body is destroyed, so an `EntityId` held after a
//! despawn is cheaply detected as stale instead of silently pointing at a
//! newer body.

use vstd::prelude::*;

use crate::bodies::{Debris, OrbitalState, PhysicsObject};
use crate::ids::EntityId;
use crate::math::Vec3;

verus! {

/// Everything the kernel tracks per body.
#[derive(Clone, Copy, PartialEq, Eq, Structural, Debug)]
pub struct Body {
    /// Position, velocity and mass.
    pub orbital: OrbitalState,
    /// Static physical properties.
    pub physics: PhysicsObject,
    /// Debris lineage, for bodies spawned by a collision.
    pub debris: Option<Debris>,
    /// The position this body is indexed under in the spatial index, if it
    /// is indexed at all.
    pub indexed_position: Option<Vec3>,
}

/// One slot of the arena.
#[derive(Clone, Copy, PartialEq, Eq, Structural, Debug)]
pub struct Slot {
    /// Bumped each time the slot's body is destroyed.
    pub generation: u32,
    /// The live body, if any.
    pub body: Option<Body>,
}

/// The arena of all tracked bodies.
pub struct Store {
    /// All slots ever created.
    pub slots: Vec<Slot>,
    /// Indexes of slots with no body, ready for reuse.
    pub free: Vec<u32>,
}

impl Store {
    /// Whether `id` names a live body: its slot exists, holds a body, and
    /// the generations agree.
    pub open spec fn live(self, id: EntityId) -> bool {
        &&& (id.index as int) < self.slots@.len()
        &&& self.slots@[id.index as int].generation == id.generation
        &&& self.slots@[id.index as int].body is Some
    }

    /// The body `id` names (meaningful only when `live(id)`).
    pub open spec fn body_of(self, id: EntityId) -> Body {
        self.slots@[id.index as int].body.unwrap()
    }

    /// Structural soundness of the free list: every entry names an empty
    /// slot, and no entry repeats.
    pub open spec fn wf(self) -> bool {
        &&& self.slots@.len() <= 0xffff_ffff
        &&& (forall|k: int|
            0 <= k < self.slots@.len() && (#[trigger] self.slots@[k]).body is Some
                ==> self.slots@[k].generation < 0xffff_ffff)
        &&& (forall|k: int|
            0 <= k < self.free@.len() ==> (#[trigger] self.free@[k]) < self.slots@.len()
                && self.slots@[self.free@[k] as int].body is None
                && self.slots@[self.free@[k] as int].generation < 0xffff_ffff)
        &&& (forall|k1: int, k2: int|
            0 <= k1 < k2 < self.free@.len() ==> #[trigger] self.free@[k1]
                != #[trigger] self.free@[k2])
    }

    /// An empty store.
    pub fn new() -> (s: Store)
        ensures
            s.wf(),
            s.slots@.len() == 0,
            forall|id: EntityId| !s.live(id),
    {
        Store { slots: Vec::new(), free: Vec::new() }
    }

    /// How many slots exist (live or free).
    pub fn slot_len(&self) -> (n: usize)
        ensures
            n == self.slots@.len(),
    {
        self.slots.len()
    }

    /// The body in slot `i` together with its current identity, or `None`
    /// for an empty slot.
    pub fn peek(&self, i: usize) -> (r: Option<(EntityId, Body)>)
        requires
            self.wf(),
            i < self.slots@.len(),
        ensures
            match r {
                Some((id, body)) => id.index == i && self.live(id) && body == self.body_of(id),
                None => self.slots@[i as int].body is None,
            },
    {
        let slot = self.slots[i];
        match slot.body {
            Some(body) => Some(
                (EntityId { index: i as u32, generation: slot.generation }, body),
            ),
            None => None,
        }
    }

    /// Look a body up by identity; `None` for a stale or unknown id.
    pub fn get(&self, id: EntityId) -> (r: Option<Body>)
        ensures
            self.live(id) ==> r == Some(self.body_of(id)),
            !self.live(id) ==> r is None,
    {
        if (id.index as usize) < self.slots.len() {
            let slot = self.slots[id.index as usize];
            if slot.generation == id.generation {
                slot.body
            } else {
                None
            }
        } else {
            None
        }
    }

    /// Spawn a body, reusing a free slot when one exists. The new identity
    /// was not live before; every body that was live stays live, unchanged,
    /// under its old identity.
    pub fn spawn(&mut self, body: Body) -> (id: EntityId)
        requires
            old(self).wf(),
            old(self).slots@.len() < 0xffff_ffff,
        ensures
            final(self).wf(),
            final(self).live(id),
            final(self).body_of(id) == body,
            !old(self).live(id),
            forall|other: EntityId|
                other != id ==> (#[trigger] final(self).live(other) == old(self).live(other)
                    && (old(self).live(other) ==> final(self).body_of(other) == old(
                    self,
                ).body_of(other))),
            final(self).slots@.len() >= old(self).slots@.len(),
            final(self).slots@.len() <= old(self).slots@.len() + 1,
            forall|k: int|
                0 <= k < old(self).slots@.len() && k != id.index as int ==> final(self).slots@[k]
                    == #[trigger] old(self).slots@[k],
            final(self).slots@[id.index as int] == (Slot {
                generation: id.generation,
                body: Some(body),
            }),
            (id.index as int) < old(self).slots@.len() ==> old(self).slots@[id.index as int].body
                is None && old(self).slots@[id.index as int].generation == id.generation
                && id.generation < 0xffff_ffff,
            (id.index as int) >= old(self).slots@.len() ==> id.index as int == old(
                self,
            ).slots@.len(),
    {
        match self.free.pop() {
            Some(idx) => {
                let slot = self.slots[idx as usize];
                let id = EntityId { index: idx, generation: slot.generation };
                self.slots[idx as usize] = Slot { generation: slot.generation, body: Some(body) };
                proof {
                    assert(old(self).free@[old(self).free@.len() - 1] == idx);
                    assert(forall|k: int|
                        0 <= k < self.free@.len() ==> #[trigger] self.free@[k] == old(
                        self,
                        ).free@[k]);
                    assert forall|k: int| 0 <= k < self.free@.len() implies (
                    #[trigger] self.free@[k]) < self.slots@.len()
                        && self.slots@[self.free@[k] as int].body is None by {
                        assert(old(self).free@[k] != idx);
                    }
                }
                id
            },
            None => {
                let idx = self.slots.len();
                let id = EntityId { index: idx as u32, generation: 0 };
                self.slots.push(Slot { generation: 0, body: Some(body) });
                id
            },
        }
    }

    /// Destroy the body `id` names, if it is live: its slot is emptied and
    /// its generation bumped, so the identity goes stale. Returns whether a
    /// body was destroyed. Every other body stays live, unchanged.
    pub fn despawn(&mut self, id: EntityId) -> (r: bool)
        requires
            old(self).wf(),
        ensures
            final(self).wf(),
            r == old(self).live(id),
            !final(self).live(id),
            forall|other: EntityId|
                other != id ==> (#[trigger] final(self).live(other) == old(self).live(other)
                    && (old(self).live(other) ==> final(self).body_of(other) == old(
                    self,
                ).body_of(other))),
            final(self).slots@.len() == old(self).slots@.len(),
            forall|k: int|
                0 <= k < old(self).slots@.len() && k != id.index as int ==> final(self).slots@[k]
                    == #[trigger] old(self).slots@[k],
            !r ==> *final(self) == *old(self),
            r ==> final(self).slots@[id.index as int].body is None,
            r ==> final(self).slots@[id.index as int].generation > id.generation,
    {
        if (id.index as usize) >= self.slots.len() {
            return false;
        }
        let slot = self.slots[id.index as usize];
        if slot.generation != id.generation || slot.body.is_none() {
            return false;
        }
        if slot.generation < 0xffff_fffe_u32 {
            self.slots[id.index as usize] = Slot {
                generation: slot.generation + 1,
                body: None,
            };
            proof {
                assert forall|k: int| 0 <= k < old(self).free@.len() implies old(self).free@[k]
                    != id.index by {
                    assert(old(self).slots@[old(self).free@[k] as int].body is None);
                }
            }
            self.free.push(id.index);
        } else {
            // the generation space of this slot is spent: retire it for good
            self.slots[id.index as usize] = Slot { generation: 0xffff_ffff, body: None };
            proof {
                assert forall|k: int| 0 <= k < old(self).free@.len() implies old(self).free@[k]
                    != id.index by {
                    assert(old(self).slots@[old(self).free@[k] as int].body is None);
                }
            }
        }
        true
    }

    /// Replace the body `id` names, if it is live. Returns whether it was.
    pub fn put(&mut self, id: EntityId, body: Body) -> (r: bool)
        requires
            old(self).wf(),
        ensures
            final(self).wf(),
            r == old(self).live(id),
            final(self).live(id) == old(self).live(id),
            old(self).live(id) ==> final(self).body_of(id) == body,
            forall|other: EntityId|
                other != id ==> (#[trigger] final(self).live(other) == old(self).live(other)
                    && (old(self).live(other) ==> final(self).body_of(other) == old(
                    self,
                ).body_of(other))),
            final(self).slots@.len() == old(self).slots@.len(),
            forall|k: int|
                0 <= k < old(self).slots@.len() && k != id.index as int ==> final(self).slots@[k]
                    == #[trigger] old(self).slots@[k],
            forall|k: int|
                0 <= k < old(self).slots@.len() ==> (#[trigger] final(self).slots@[k]).generation
                    == old(self).slots@[k].generation,
            !r ==> *final(self) == *old(self),
    {
        if (id.index as usize) >= self.slots.len() {
            return false;
        }
        let slot = self.slots[id.index as usize];
        if slot.generation != id.generation || slot.body.is_none() {
            return false;
        }
        self.slots[id.index as usize] = Slot { generation: slot.generation, body: Some(body) };
        true
    }

    /// How many bodies are live.
    pub fn live_count(&self) -> (n: usize)
        ensures
            n == spec_live_count(self.slots@),
            n <= self.slots@.len(),
    {
        let mut n: usize = 0;
        let mut i: usize = 0;
        while i < self.slots.len()
            invariant
                i <= self.slots@.len(),
                n == spec_live_count(self.slots@.subrange(0, i as int)),
                n <= i,
            decreases self.slots@.len() - i,
        {
            proof {
                assert(self.slots@.subrange(0, i + 1).drop_last() =~= self.slots@.subrange(
                    0,
                    i as int,
                ));
                assert(self.slots@.subrange(0, i + 1).last() == self.slots@[i as int]);
            }
            if self.slots[i].body.is_some() {
                n = n + 1;
            }
            i = i + 1;
        }
        proof {
            assert(self.slots@.subrange(0, self.slots@.len() as int) =~= self.slots@);
        }
        n
    }
}

/// How many slots of a sequence hold a body.
pub open spec fn spec_live_count(slots: Seq<Slot>) -> nat
    decreases slots.len(),
{
    if slots.len() == 0 {
        0
    } else {
        spec_live_count(slots.drop_last()) + if slots.last().body is Some {
            1nat
        } else {
            0nat
        }
    }
}

} // verus!
