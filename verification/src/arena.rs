//! Arena of simulation entities, indexed by stable generation-tagged
//! handles. Despawning a slot bumps nothing; respawning into it bumps its
//! generation, so a handle taken before the despawn can never resolve to the
//! newcomer.

use vstd::prelude::*;

use crate::vec3::Vec3i;

verus! {

/// A stable handle to an arena slot: slot index plus the generation the slot
/// had when the entity was spawned.
#[derive(Copy, Clone, Debug, PartialEq, Eq, Structural)]
pub struct EntityId {
    pub idx: usize,
    pub gen: u64,
}

/// What role an entity plays in the game.
#[derive(Copy, Clone, Debug, PartialEq, Eq, Structural)]
pub enum EntityKind {
    Head,
    Segment,
    Fruit,
}

/// A collision volume: a radius and the list of entities currently
/// overlapping this one. The list is a transient derived value, fully
/// recomputed by the collision detector each step.
#[derive(Debug)]
pub struct Collider {
    pub radius: i64,
    pub colliding_entities: Vec<EntityId>,
}

impl Collider {
    /// A collider whose radius is half the given diameter, with an empty
    /// overlap list.
    pub fn new(r: i64) -> (c: Collider)
        requires
            r >= 0,
        ensures
            c.radius == r / 2,
            c.colliding_entities@ == Seq::<EntityId>::empty(),
    {
        Collider { radius: r / 2, colliding_entities: Vec::new() }
    }
}

/// The components of one live entity.
pub struct EntityData {
    /// Position: the transform the renderer reads.
    pub pos: Vec3i,
    /// Velocity, for entities moved by the integrator; `None` for the rest.
    pub vel: Option<Vec3i>,
    /// Collision volume, for entities the detector scans; `None` for the rest.
    pub collider: Option<Collider>,
    /// The entity's role.
    pub kind: EntityKind,
}

/// One arena slot: its current generation and, while an entity lives in it,
/// that entity's components.
pub struct Slot {
    pub gen: u64,
    pub data: Option<EntityData>,
}

/// The entity arena.
pub struct Arena {
    pub slots: Vec<Slot>,
}

impl Arena {
    /// Whether `id` resolves to a live entity.
    pub open spec fn is_live(self, id: EntityId) -> bool {
        &&& id.idx < self.slots@.len()
        &&& self.slots@[id.idx as int].gen == id.gen
        &&& self.slots@[id.idx as int].data is Some
    }

    /// The components of the live entity behind `id`.
    pub open spec fn data_of(self, id: EntityId) -> EntityData {
        self.slots@[id.idx as int].data->0
    }

    /// Both arenas have exactly the same live handles.
    pub open spec fn same_live(self, other: Arena) -> bool {
        forall|id: EntityId| self.is_live(id) <==> #[trigger] other.is_live(id)
    }

    /// An empty arena.
    pub fn new() -> (a: Arena)
        ensures
            forall|id: EntityId| !a.is_live(id),
    {
        Arena { slots: Vec::new() }
    }

    /// Create an entity and hand back a handle that no earlier handle
    /// aliases. Every other entity is untouched.
    pub fn spawn(&mut self, data: EntityData) -> (id: EntityId)
        ensures
            !old(self).is_live(id),
            final(self).is_live(id),
            final(self).data_of(id) == data,
            forall|id2: EntityId| #[trigger] old(self).is_live(id2) ==> final(self).is_live(id2)
                && final(self).data_of(id2) == old(self).data_of(id2),
            forall|id2: EntityId| #[trigger] final(self).is_live(id2) && id2 != id
                ==> old(self).is_live(id2),
    {
        let mut i: usize = 0;
        let n: usize = self.slots.len();
        while i < n
            invariant
                n == self.slots@.len(),
                0 <= i <= n,
                self == old(self),
                forall|k: int| 0 <= k < i
                    ==> !(self.slots@[k].data is None && self.slots@[k].gen < u64::MAX),
            decreases n - i,
        {
            if self.slots[i].data.is_none() && self.slots[i].gen < u64::MAX {
                let g: u64 = self.slots[i].gen + 1;
                self.slots.set(i, Slot { gen: g, data: Some(data) });
                return EntityId { idx: i, gen: g };
            }
            i = i + 1;
        }
        self.slots.push(Slot { gen: 0, data: Some(data) });
        EntityId { idx: n, gen: 0 }
    }

    /// Destroy the entity behind `id`; the handle stops resolving at once.
    /// Every other entity is untouched.
    pub fn despawn(&mut self, id: EntityId)
        requires
            old(self).is_live(id),
        ensures
            !final(self).is_live(id),
            forall|id2: EntityId| #[trigger] old(self).is_live(id2) && id2 != id
                ==> final(self).is_live(id2)
                    && final(self).data_of(id2) == old(self).data_of(id2),
            forall|id2: EntityId| #[trigger] final(self).is_live(id2)
                ==> old(self).is_live(id2),
            final(self).slots@.len() == old(self).slots@.len(),
            forall|k: int| 0 <= k < old(self).slots@.len()
                ==> final(self).slots@[k].gen == old(self).slots@[k].gen,
            forall|k: int| 0 <= k < old(self).slots@.len() && k != id.idx
                ==> (final(self).slots@[k].data is Some <==> old(self).slots@[k].data is Some),
            final(self).slots@[id.idx as int].data is None,
    {
        let mut slot = self.slots.remove(id.idx);
        slot.data = None;
        self.slots.insert(id.idx, slot);
        proof {
            assert(self.slots@ =~= old(self).slots@.update(
                id.idx as int,
                Slot { gen: id.gen, data: None },
            ));
        }
    }

    /// Look the handle up: the entity's components while it is live,
    /// `None` once it is gone.
    pub fn get(&self, id: EntityId) -> (r: Option<&EntityData>)
        ensures
            match r {
                Some(d) => self.is_live(id) && *d == self.data_of(id),
                None => !self.is_live(id),
            },
    {
        if id.idx < self.slots.len() {
            let slot = &self.slots[id.idx];
            if slot.gen == id.gen {
                slot.data.as_ref()
            } else {
                None
            }
        } else {
            None
        }
    }

    /// Move the entity to `pos`; everything else about it, and every other
    /// entity, stays as it was.
    pub fn set_pos(&mut self, id: EntityId, pos: Vec3i)
        requires
            old(self).is_live(id),
        ensures
            final(self).is_live(id),
            final(self).data_of(id).pos == pos,
            final(self).data_of(id).vel == old(self).data_of(id).vel,
            final(self).data_of(id).collider == old(self).data_of(id).collider,
            final(self).data_of(id).kind == old(self).data_of(id).kind,
            forall|id2: EntityId| #[trigger] old(self).is_live(id2) && id2 != id
                ==> final(self).is_live(id2)
                    && final(self).data_of(id2) == old(self).data_of(id2),
            old(self).same_live(*final(self)),
            final(self).slots@.len() == old(self).slots@.len(),
            forall|k: int| 0 <= k < old(self).slots@.len()
                ==> final(self).slots@[k].gen == old(self).slots@[k].gen,
            forall|k: int| 0 <= k < old(self).slots@.len()
                ==> (final(self).slots@[k].data is Some <==> old(self).slots@[k].data is Some),
    {
        let mut slot = self.slots.remove(id.idx);
        match slot.data {
            Some(mut d) => {
                d.pos = pos;
                slot.data = Some(d);
            },
            None => {},
        }
        self.slots.insert(id.idx, slot);
        proof {
            assert(self.slots@ =~= old(self).slots@.update(
                id.idx as int,
                self.slots@[id.idx as int],
            ));
        }
    }

    /// Give the entity velocity `vel`; everything else about it, and every
    /// other entity, stays as it was.
    pub fn set_vel(&mut self, id: EntityId, vel: Option<Vec3i>)
        requires
            old(self).is_live(id),
        ensures
            final(self).is_live(id),
            final(self).data_of(id).pos == old(self).data_of(id).pos,
            final(self).data_of(id).vel == vel,
            final(self).data_of(id).collider == old(self).data_of(id).collider,
            final(self).data_of(id).kind == old(self).data_of(id).kind,
            forall|id2: EntityId| #[trigger] old(self).is_live(id2) && id2 != id
                ==> final(self).is_live(id2)
                    && final(self).data_of(id2) == old(self).data_of(id2),
            old(self).same_live(*final(self)),
            final(self).slots@.len() == old(self).slots@.len(),
            forall|k: int| 0 <= k < old(self).slots@.len()
                ==> final(self).slots@[k].gen == old(self).slots@[k].gen,
            forall|k: int| 0 <= k < old(self).slots@.len()
                ==> (final(self).slots@[k].data is Some <==> old(self).slots@[k].data is Some),
    {
        let mut slot = self.slots.remove(id.idx);
        match slot.data {
            Some(mut d) => {
                d.vel = vel;
                slot.data = Some(d);
            },
            None => {},
        }
        self.slots.insert(id.idx, slot);
        proof {
            assert(self.slots@ =~= old(self).slots@.update(
                id.idx as int,
                self.slots@[id.idx as int],
            ));
        }
    }

    /// Replace the entity's overlap list; its radius, its other components
    /// and every other entity stay as they were. The entity must carry a
    /// collider.
    pub fn set_overlaps(&mut self, id: EntityId, overlaps: Vec<EntityId>)
        requires
            old(self).is_live(id),
            old(self).data_of(id).collider is Some,
        ensures
            final(self).is_live(id),
            final(self).data_of(id).pos == old(self).data_of(id).pos,
            final(self).data_of(id).vel == old(self).data_of(id).vel,
            final(self).data_of(id).kind == old(self).data_of(id).kind,
            final(self).data_of(id).collider is Some,
            final(self).data_of(id).collider->0.radius
                == old(self).data_of(id).collider->0.radius,
            final(self).data_of(id).collider->0.colliding_entities@ == overlaps@,
            forall|id2: EntityId| #[trigger] old(self).is_live(id2) && id2 != id
                ==> final(self).is_live(id2)
                    && final(self).data_of(id2) == old(self).data_of(id2),
            old(self).same_live(*final(self)),
            final(self).slots@.len() == old(self).slots@.len(),
            forall|k: int| 0 <= k < old(self).slots@.len()
                ==> final(self).slots@[k].gen == old(self).slots@[k].gen,
            forall|k: int| 0 <= k < old(self).slots@.len()
                ==> (final(self).slots@[k].data is Some <==> old(self).slots@[k].data is Some),
    {
        let mut slot = self.slots.remove(id.idx);
        match slot.data {
            Some(mut d) => {
                match d.collider {
                    Some(c) => {
                        d.collider = Some(
                            Collider { radius: c.radius, colliding_entities: overlaps },
                        );
                    },
                    None => {},
                }
                slot.data = Some(d);
            },
            None => {},
        }
        self.slots.insert(id.idx, slot);
        proof {
            assert(self.slots@ =~= old(self).slots@.update(
                id.idx as int,
                self.slots@[id.idx as int],
            ));
        }
    }

    /// How many slots the arena has ever used; handles index below this.
    pub fn slot_count(&self) -> (n: usize)
        ensures
            n == self.slots@.len(),
    {
        self.slots.len()
    }

    /// The handle of the live entity in slot `idx`, if one lives there.
    pub fn id_at(&self, idx: usize) -> (r: Option<EntityId>)
        requires
            idx < self.slots@.len(),
        ensures
            match r {
                Some(id) => id.idx == idx && self.is_live(id),
                None => self.slots@[idx as int].data is None,
            },
    {
        let slot = &self.slots[idx];
        if slot.data.is_some() {
            Some(EntityId { idx, gen: slot.gen })
        } else {
            None
        }
    }
}

} // verus!
