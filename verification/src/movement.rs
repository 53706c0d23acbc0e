//! The movement integrator: once per simulation step, every entity carrying
//! a velocity advances by exactly that velocity, and one movement event per
//! entity that moved is emitted in a single batch.

use vstd::prelude::*;

use crate::arena::{Arena, EntityData, EntityId};
use crate::events::EventQueue;
use crate::vec3::Vec3i;
use crate::{POS_LIMIT, VEL_LIMIT};

verus! {

/// An entity moved this step; carries the mover's handle.
#[derive(Copy, Clone, Debug, PartialEq, Eq, Structural)]
pub struct MovementEvent(pub EntityId);

/// Every live entity's velocity, where it has one, has components within `b`.
pub open spec fn velocities_bounded(a: Arena, b: int) -> bool {
    forall|id: EntityId| #[trigger] a.is_live(id) && a.data_of(id).vel is Some
        ==> a.data_of(id).vel->0.within(b)
}

/// The entity carries a velocity and it is not zero.
pub open spec fn entity_moves(a: Arena, id: EntityId) -> bool {
    a.data_of(id).vel matches Some(v) && v != (Vec3i { x: 0, y: 0, z: 0 })
}

/// How one entity's components look after integration: position advanced by
/// the velocity, everything else untouched.
pub open spec fn integrated(d0: EntityData, d1: EntityData) -> bool {
    &&& d1.vel == d0.vel
    &&& d1.kind == d0.kind
    &&& d1.collider == d0.collider
    &&& match d0.vel {
        Some(v) => {
            &&& d1.pos.x == d0.pos.x + v.x
            &&& d1.pos.y == d0.pos.y + v.y
            &&& d1.pos.z == d0.pos.z + v.z
        },
        None => d1.pos == d0.pos,
    }
}

/// The movement events due for slots `[0, k)`: one per live mover, in slot
/// order.
pub open spec fn movement_events_upto(a: Arena, k: int) -> Seq<MovementEvent>
    decreases k,
{
    if k <= 0 {
        Seq::empty()
    } else {
        movement_events_upto(a, k - 1) + (if a.slots@[k - 1].data is Some && entity_moves(
            a,
            crate::collision::slot_id(a, k - 1),
        ) {
            seq![MovementEvent(crate::collision::slot_id(a, k - 1))]
        } else {
            Seq::empty()
        })
    }
}

/// One Pre-step integration pass: `position += velocity` for every entity
/// with a velocity, exactly; a movement event per entity that moved is
/// appended to `er`, batched in slot order.
#[verifier::loop_isolation(false)]
pub fn update_position(arena: &mut Arena, er: &mut EventQueue<MovementEvent>)
    requires
        crate::collision::positions_bounded(*old(arena), POS_LIMIT as int),
        velocities_bounded(*old(arena), VEL_LIMIT as int),
    ensures
        old(arena).same_live(*final(arena)),
        forall|id: EntityId| #[trigger] old(arena).is_live(id) ==> integrated(
            old(arena).data_of(id),
            final(arena).data_of(id),
        ),
        crate::collision::positions_bounded(
            *final(arena),
            POS_LIMIT as int + VEL_LIMIT as int,
        ),
        velocities_bounded(*final(arena), VEL_LIMIT as int),
        final(er).previous@ == old(er).previous@,
        final(er).current@ == old(er).current@ + movement_events_upto(
            *old(arena),
            old(arena).slots@.len() as int,
        ),
        final(arena).slots@.len() == old(arena).slots@.len(),
        forall|k: int| 0 <= k < old(arena).slots@.len()
            ==> final(arena).slots@[k].gen == old(arena).slots@[k].gen,
{
    let ghost a0 = *arena;
    let ghost er0 = *er;
    let n: usize = arena.slot_count();
    let mut batch: Vec<MovementEvent> = Vec::new();
    let mut i: usize = 0;
    while i < n
        invariant
            0 <= i <= n,
            n == arena.slots@.len(),
            forall|k: int| 0 <= k < n ==> arena.slots@[k].gen == a0.slots@[k].gen
                && (arena.slots@[k].data is Some <==> a0.slots@[k].data is Some),
            a0.same_live(*arena),
            forall|id: EntityId| #[trigger] a0.is_live(id) && id.idx < i ==> integrated(
                a0.data_of(id),
                arena.data_of(id),
            ),
            forall|id: EntityId| #[trigger] a0.is_live(id) && id.idx >= i
                ==> arena.data_of(id) == a0.data_of(id),
            batch@ == movement_events_upto(a0, i as int),
            *er == er0,
        decreases n - i,
    {
        let ghost a_prev = *arena;
        match arena.id_at(i) {
            Some(id) => {
                proof {
                    assert(crate::collision::slot_id(a0, i as int) == id);
                }
                let d = arena.get(id).unwrap();
                match d.vel {
                    Some(v) => {
                        let p = d.pos;
                        let moved: bool = v.x != 0 || v.y != 0 || v.z != 0;
                        let np = Vec3i { x: p.x + v.x, y: p.y + v.y, z: p.z + v.z };
                        arena.set_pos(id, np);
                        if moved {
                            batch.push(MovementEvent(id));
                        }
                        proof {
                            assert(moved == entity_moves(a0, id));
                            assert(batch@ =~= movement_events_upto(a0, i + 1));
                            assert forall|id2: EntityId| #[trigger] a0.is_live(id2)
                                && id2 != id implies arena.data_of(id2) == a_prev.data_of(
                                id2,
                            ) by {
                                assert(a_prev.is_live(id2));
                            }
                        }
                    },
                    None => {
                        proof {
                            assert(batch@ =~= movement_events_upto(a0, i + 1));
                        }
                    },
                }
            },
            None => {
                proof {
                    assert(a0.slots@[i as int].data is None);
                    assert(batch@ =~= movement_events_upto(a0, i + 1));
                }
            },
        }
        i = i + 1;
    }
    er.send_batch(batch);
}

/// Semi-implicit Euler integration over `dt` time units for an entity in
/// powered flight: the velocity absorbs the acceleration first, then the
/// advanced velocity carries the position. Returns the new position and the
/// new velocity.
pub fn integrate_accelerated(pos: Vec3i, vel: Vec3i, acc: Vec3i, dt: i64) -> (r: (Vec3i, Vec3i))
    requires
        pos.within(POS_LIMIT as int),
        vel.within(VEL_LIMIT as int),
        acc.within(VEL_LIMIT as int),
        0 <= dt <= 1000,
    ensures
        r.1.x == vel.x + acc.x * dt,
        r.1.y == vel.y + acc.y * dt,
        r.1.z == vel.z + acc.z * dt,
        r.0.x == pos.x + r.1.x * dt,
        r.0.y == pos.y + r.1.y * dt,
        r.0.z == pos.z + r.1.z * dt,
{
    proof {
        lemma_scaled_bound(acc.x, dt);
        lemma_scaled_bound(acc.y, dt);
        lemma_scaled_bound(acc.z, dt);
    }
    let nv = Vec3i { x: vel.x + acc.x * dt, y: vel.y + acc.y * dt, z: vel.z + acc.z * dt };
    proof {
        lemma_velocity_step_bound(nv.x, dt);
        lemma_velocity_step_bound(nv.y, dt);
        lemma_velocity_step_bound(nv.z, dt);
    }
    let np = Vec3i { x: pos.x + nv.x * dt, y: pos.y + nv.y * dt, z: pos.z + nv.z * dt };
    (np, nv)
}

/// A velocity-sized component scaled by at most 1000 stays far inside `i64`.
proof fn lemma_scaled_bound(c: i64, dt: i64)
    requires
        -VEL_LIMIT <= c <= VEL_LIMIT,
        0 <= dt <= 1000,
    ensures
        -1_000_000_000 <= c * dt <= 1_000_000_000,
{
    assert(-1_000_000_000 <= c * dt <= 1_000_000_000) by (nonlinear_arith)
        requires
            -1_000_000 <= c <= 1_000_000,
            0 <= dt <= 1000,
    ;
}

/// A stepped velocity scaled by at most 1000 stays far inside `i64`.
proof fn lemma_velocity_step_bound(c: i64, dt: i64)
    requires
        -1_001_000_000 <= c <= 1_001_000_000,
        0 <= dt <= 1000,
    ensures
        -1_001_000_000_000 <= c * dt <= 1_001_000_000_000,
{
    assert(-1_001_000_000_000 <= c * dt <= 1_001_000_000_000) by (nonlinear_arith)
        requires
            -1_001_000_000 <= c <= 1_001_000_000,
            0 <= dt <= 1000,
    ;
}

} // verus!
