//! Pairwise collision detection: once per step, every collider's overlap
//! list is cleared and fully recomputed by an O(n^2) scan over all entities
//! carrying a collider. Two entities A and B are colliding iff
//! `|posA - posB|^2 < (radiusA + radiusB)^2`; the squared-distance
//! comparison avoids a square root.

use vstd::prelude::*;

use crate::arena::{Arena, EntityId, EntityKind};
use crate::events::EventQueue;
use crate::vec3::{Vec3i, COORD_LIMIT};

verus! {

/// Two entities came into collision range; an event kind reserved for
/// rules that want per-pair notifications.
#[derive(Copy, Clone, Debug, PartialEq, Eq, Structural)]
pub struct CollisionEvent;

/// A fruit was eaten this step; the growth rule consumes one event per pickup.
#[derive(Copy, Clone, Debug, PartialEq, Eq, Structural)]
pub struct FruitEatenEvent;

/// The entity is live and carries a collider.
pub open spec fn has_collider(a: Arena, id: EntityId) -> bool {
    a.is_live(id) && a.data_of(id).collider is Some
}

/// The radius of the entity's collider.
pub open spec fn radius_of(a: Arena, id: EntityId) -> i64 {
    a.data_of(id).collider->0.radius
}

/// The entity's current overlap list.
pub open spec fn overlaps_of(a: Arena, id: EntityId) -> Seq<EntityId> {
    a.data_of(id).collider->0.colliding_entities@
}

/// `y` stands in `x`'s overlap list.
pub open spec fn in_overlaps(a: Arena, x: EntityId, y: EntityId) -> bool {
    has_collider(a, x) && overlaps_of(a, x).contains(y)
}

/// The collision relation itself: distinct collider-carrying entities whose
/// squared distance is below the square of their summed radii.
pub open spec fn colliding(a: Arena, x: EntityId, y: EntityId) -> bool {
    &&& has_collider(a, x)
    &&& has_collider(a, y)
    &&& x != y
    &&& Vec3i::dist_sq_spec(a.data_of(x).pos, a.data_of(y).pos) < (radius_of(a, x)
        + radius_of(a, y)) * (radius_of(a, x) + radius_of(a, y))
}

/// Every overlap list holds exactly the entities its owner is colliding
/// with: what the detector establishes.
pub open spec fn lists_recomputed(a: Arena) -> bool {
    forall|x: EntityId, y: EntityId|
        #![trigger in_overlaps(a, x, y)]
        #![trigger colliding(a, x, y)]
        in_overlaps(a, x, y) <==> colliding(a, x, y)
}

/// Every live entity's position has components within `b`.
pub open spec fn positions_bounded(a: Arena, b: int) -> bool {
    forall|id: EntityId| #[trigger] a.is_live(id) ==> a.data_of(id).pos.within(b)
}

/// Every collider radius lies in `[0, COORD_LIMIT]`.
pub open spec fn radii_bounded(a: Arena) -> bool {
    forall|id: EntityId| #[trigger] has_collider(a, id) ==> 0 <= radius_of(a, id) <= COORD_LIMIT
}

/// Both arenas carry the same live entities, each with the same position,
/// velocity, kind, collider presence and radius; only overlap lists may
/// differ.
pub open spec fn same_except_overlaps(a: Arena, b: Arena) -> bool {
    &&& a.same_live(b)
    &&& forall|id: EntityId| #[trigger] a.is_live(id) ==> {
        &&& b.data_of(id).pos == a.data_of(id).pos
        &&& b.data_of(id).vel == a.data_of(id).vel
        &&& b.data_of(id).kind == a.data_of(id).kind
        &&& (b.data_of(id).collider is Some <==> a.data_of(id).collider is Some)
        &&& (a.data_of(id).collider is Some ==> radius_of(b, id) == radius_of(a, id))
    }
}

/// The handle slot `k` would currently resolve under.
pub open spec fn slot_id(a: Arena, k: int) -> EntityId {
    EntityId { idx: k as usize, gen: a.slots@[k].gen }
}

/// The collision relation only reads positions and radii, so it is the same
/// in two arenas that differ at most in their overlap lists.
proof fn lemma_colliding_stable(a: Arena, b: Arena, x: EntityId, y: EntityId)
    requires
        same_except_overlaps(a, b),
    ensures
        colliding(a, x, y) == colliding(b, x, y),
{
    assert(a.is_live(x) <==> b.is_live(x));
    assert(a.is_live(y) <==> b.is_live(y));
}

/// The collision relation is symmetric, and therefore so is membership in
/// freshly recomputed overlap lists: if A lists B, then B lists A.
pub proof fn lemma_overlaps_symmetric(a: Arena, x: EntityId, y: EntityId)
    requires
        lists_recomputed(a),
    ensures
        in_overlaps(a, x, y) <==> in_overlaps(a, y, x),
{
    let px = a.data_of(x).pos;
    let py = a.data_of(y).pos;
    assert(Vec3i::dist_sq_spec(px, py) == Vec3i::dist_sq_spec(py, px)) by (nonlinear_arith);
    assert(colliding(a, x, y) == colliding(a, y, x));
}

/// One full detector pass: clears every overlap list and repopulates it
/// from the current positions. Nothing else about any entity changes.
#[verifier::loop_isolation(false)]
pub fn collision_detection(arena: &mut Arena)
    requires
        positions_bounded(*old(arena), COORD_LIMIT as int),
        radii_bounded(*old(arena)),
    ensures
        same_except_overlaps(*old(arena), *final(arena)),
        lists_recomputed(*final(arena)),
{
    let ghost a0 = *arena;
    let n: usize = arena.slot_count();

    // Read pass: compute every overlap list from the frozen positions.
    let mut pending: Vec<Vec<EntityId>> = Vec::new();
    let mut i: usize = 0;
    while i < n
        invariant
            *arena == a0,
            pending@.len() == i,
            0 <= i <= n,
            forall|k: int| #![trigger pending@[k]] 0 <= k < i ==> good_list(
                a0,
                k,
                pending@[k]@,
            ),
        decreases n - i,
    {
        let mut list: Vec<EntityId> = Vec::new();
        let slot_live: bool = match arena.id_at(i) {
            Some(_) => true,
            None => false,
        };
        if slot_live {
            let id_a = arena.id_at(i).unwrap();
            let has_col: bool = match arena.get(id_a).unwrap().collider {
                Some(_) => true,
                None => false,
            };
            if has_col {
                let pos_a = arena.get(id_a).unwrap().pos;
                let rad_a = match &arena.get(id_a).unwrap().collider {
                    Some(c) => c.radius,
                    None => 0,
                };
                let mut j: usize = 0;
                while j < n
                    invariant
                        *arena == a0,
                        0 <= j <= n,
                        has_collider(a0, id_a) && id_a.idx == i,
                        pos_a == a0.data_of(id_a).pos,
                        rad_a == radius_of(a0, id_a),
                        forall|t: int| 0 <= t < list@.len() ==> colliding(
                            a0,
                            id_a,
                            #[trigger] list@[t],
                        ),
                        forall|k: int| 0 <= k < j && a0.slots@[k].data is Some && colliding(
                            a0,
                            id_a,
                            #[trigger] slot_id(a0, k),
                        ) ==> list@.contains(slot_id(a0, k)),
                    decreases n - j,
                {
                    proof {
                        if a0.slots@[j as int].data is Some {
                            assert(a0.is_live(slot_id(a0, j as int)));
                        }
                    }
                    if j != i {
                        match arena.id_at(j) {
                            Some(id_b) => {
                                let d = arena.get(id_b).unwrap();
                                match &d.collider {
                                    Some(cb) => {
                                        proof {
                                            assert(has_collider(a0, id_b));
                                        }
                                        let dist = Vec3i::dist_sq(pos_a, d.pos);
                                        let rsum: i64 = rad_a + cb.radius;
                                        assert(0 <= rsum * rsum <= 4_000_000_000_000_000_000)
                                            by (nonlinear_arith)
                                            requires 0 <= rsum <= 2_000_000_000,
                                        ;
                                        if dist < rsum * rsum {
                                            proof {
                                                assert(id_b.idx == j && id_a.idx == i);
                                                assert(id_b != id_a);
                                                assert(colliding(a0, id_a, id_b));
                                            }
                                            let ghost lpre = list@;
                                            list.push(id_b);
                                            proof {
                                                assert(list@[list@.len() - 1] == id_b);
                                                assert(list@.contains(id_b));
                                                assert forall|y: EntityId| lpre.contains(y)
                                                    implies list@.contains(y) by {
                                                    let t = choose|t: int|
                                                        0 <= t < lpre.len() && lpre[t] == y;
                                                    assert(list@[t] == y);
                                                }
                                            }
                                        } else {
                                            proof {
                                                assert(!colliding(a0, id_a, id_b));
                                            }
                                        }
                                    },
                                    None => {},
                                }
                            },
                            None => {},
                        }
                    } else {
                        proof {
                            assert(slot_id(a0, j as int) == id_a);
                        }
                    }
                    j = j + 1;
                }
                proof {
                    assert forall|y: EntityId| list@.contains(y) <==> colliding(
                        a0,
                        id_a,
                        y,
                    ) by {
                        if list@.contains(y) {
                            let t = choose|t: int| 0 <= t < list@.len() && list@[t] == y;
                            assert(colliding(a0, id_a, list@[t]));
                        }
                        if colliding(a0, id_a, y) {
                            assert(a0.is_live(y));
                            assert(slot_id(a0, y.idx as int) == y);
                        }
                    }
                }
            }
        }
        pending.push(list);
        i = i + 1;
    }

    // Commit pass: write the recomputed lists back.
    let mut pending = pending;
    let mut i: usize = 0;
    while i < n
        invariant
            0 <= i <= n,
            n == arena.slots@.len(),
            pending@.len() == n - i,
            same_except_overlaps(a0, *arena),
            forall|k: int| 0 <= k < n ==> arena.slots@[k].gen == a0.slots@[k].gen
                && (arena.slots@[k].data is Some <==> a0.slots@[k].data is Some),
            forall|k: int| #![trigger pending@[k]] 0 <= k < n - i ==> good_list(
                a0,
                k + i,
                pending@[k]@,
            ),
            forall|x: EntityId, y: EntityId|
                #![trigger in_overlaps(*arena, x, y)]
                x.idx < i ==> (in_overlaps(*arena, x, y) <==> colliding(a0, x, y)),
            forall|x: EntityId| #[trigger] has_collider(*arena, x) && x.idx >= i
                ==> overlaps_of(*arena, x) == overlaps_of(a0, x),
        decreases n - i,
    {
        let ghost a_prev = *arena;
        let ghost list_snap = pending@[0]@;
        let list = pending.remove(0);
        let opt_id = arena.id_at(i);
        match opt_id {
            Some(id) => {
                let has_col: bool = match arena.get(id).unwrap().collider {
                    Some(_) => true,
                    None => false,
                };
                if has_col {
                    proof {
                        assert(slot_id(a0, i as int) == id);
                        assert(good_list(a0, i as int, list_snap));
                    }
                    arena.set_overlaps(id, list);
                    proof {
                        assert(arena.slots@.len() == n);
                        assert forall|id2: EntityId| #[trigger] a0.is_live(id2) && id2 != id
                            implies arena.data_of(id2) == a_prev.data_of(id2) by {
                            assert(a_prev.is_live(id2));
                        }
                        assert forall|x: EntityId| #[trigger] has_collider(*arena, x)
                            && x.idx >= i + 1 implies overlaps_of(*arena, x) == overlaps_of(
                            a0,
                            x,
                        ) by {
                            assert(x != id);
                            assert(a_prev.is_live(x));
                            assert(has_collider(a_prev, x));
                        }
                        assert forall|x: EntityId, y: EntityId|
                            x.idx < i + 1 implies (#[trigger] in_overlaps(*arena, x, y)
                                <==> colliding(a0, x, y)) by {
                            if x.idx < i {
                                assert(x != id);
                                if a_prev.is_live(x) {
                                    assert(a0.is_live(x));
                                    assert(arena.data_of(x) == a_prev.data_of(x));
                                }
                                assert(in_overlaps(*arena, x, y) == in_overlaps(a_prev, x, y));
                            } else {
                                if arena.is_live(x) {
                                    assert(arena.slots@[x.idx as int].gen == id.gen);
                                    assert(x == id);
                                    assert(overlaps_of(*arena, x) == list_snap);
                                } else {
                                    assert(!a0.is_live(x));
                                }
                            }
                        }
                    }
                } else {
                    proof {
                        assert forall|x: EntityId, y: EntityId|
                            x.idx < i + 1 implies (#[trigger] in_overlaps(*arena, x, y)
                                <==> colliding(a0, x, y)) by {
                            if x.idx == i && (in_overlaps(*arena, x, y) || colliding(a0, x, y)) {
                                assert(arena.is_live(x) ==> x == id);
                                assert(!has_collider(*arena, x));
                                assert(!has_collider(a0, x));
                            }
                        }
                    }
                }
            },
            None => {
                proof {
                    assert(a0.slots@[i as int].data is None);
                    assert forall|x: EntityId, y: EntityId|
                        x.idx < i + 1 implies (#[trigger] in_overlaps(*arena, x, y)
                            <==> colliding(a0, x, y)) by {
                        if x.idx == i {
                            assert(!arena.is_live(x));
                            assert(!a0.is_live(x));
                        }
                    }
                }
            },
        }
        i = i + 1;
    }
    proof {
        assert forall|x: EntityId, y: EntityId| in_overlaps(*arena, x, y) <==> colliding(
            *arena,
            x,
            y,
        ) by {
            lemma_colliding_stable(a0, *arena, x, y);
            if in_overlaps(*arena, x, y) || colliding(a0, x, y) {
                assert(has_collider(*arena, x) ==> x.idx < n);
            }
        }
    }
}

/// The entity is a live fruit whose overlap list names `head`.
pub open spec fn fruit_listed(a: Arena, head: EntityId, id: EntityId) -> bool {
    &&& a.is_live(id)
    &&& a.data_of(id).kind == EntityKind::Fruit
    &&& a.data_of(id).collider is Some
    &&& overlaps_of(a, id).contains(head)
}

/// How many of the slots below `k` hold a fruit whose overlap list names
/// `head`.
pub open spec fn fruit_listed_count(a: Arena, head: EntityId, k: int) -> int
    decreases k,
{
    if k <= 0 {
        0
    } else {
        fruit_listed_count(a, head, k - 1) + (if a.slots@[k - 1].data is Some && fruit_listed(
            a,
            head,
            slot_id(a, k - 1),
        ) {
            1int
        } else {
            0int
        })
    }
}

/// Pickup detection over recomputed overlap lists: every live fruit whose
/// list names the head is despawned, and one pickup event per despawned
/// fruit is written in a single batch. Everything else is untouched.
#[verifier::loop_isolation(false)]
pub fn fruit_collision(arena: &mut Arena, head: EntityId, er: &mut EventQueue<FruitEatenEvent>)
    requires
        old(arena).is_live(head),
        old(arena).data_of(head).kind == EntityKind::Head,
    ensures
        final(arena).is_live(head),
        final(er).previous@ == old(er).previous@,
        final(er).current@.len() == old(er).current@.len() + fruit_listed_count(
            *old(arena),
            head,
            old(arena).slots@.len() as int,
        ),
        forall|id: EntityId| #[trigger] final(arena).is_live(id) <==> (old(arena).is_live(id)
            && !fruit_listed(*old(arena), head, id)),
        forall|id: EntityId| #[trigger] final(arena).is_live(id) ==> final(arena).data_of(id)
            == old(arena).data_of(id),
{
    let ghost a0 = *old(arena);
    let n: usize = arena.slot_count();
    let mut events: Vec<FruitEatenEvent> = Vec::new();
    let mut i: usize = 0;
    while i < n
        invariant
            0 <= i <= n,
            n == arena.slots@.len(),
            forall|k: int| 0 <= k < n ==> arena.slots@[k].gen == a0.slots@[k].gen,
            forall|k: int| i <= k < n ==> (arena.slots@[k].data is Some <==> a0.slots@[k].data
                is Some),
            forall|id: EntityId| #[trigger] arena.is_live(id) && id.idx >= i ==> a0.is_live(id),
            forall|id: EntityId| #[trigger] a0.is_live(id) && id.idx >= i ==> arena.is_live(id),
            forall|id: EntityId| id.idx < i ==> (#[trigger] arena.is_live(id) <==> (a0.is_live(
                id,
            ) && !fruit_listed(a0, head, id))),
            forall|id: EntityId| #[trigger] arena.is_live(id) ==> arena.data_of(id)
                == a0.data_of(id),
            events@.len() == fruit_listed_count(a0, head, i as int),
        decreases n - i,
    {
        let ghost a_prev = *arena;
        match arena.id_at(i) {
            Some(id) => {
                proof {
                    assert(slot_id(a0, i as int) == id);
                }
                let is_listed_fruit: bool = {
                    let d = arena.get(id).unwrap();
                    let is_fruit: bool = match d.kind {
                        EntityKind::Fruit => true,
                        _ => false,
                    };
                    if is_fruit {
                        match &d.collider {
                            Some(c) => contains_id(&c.colliding_entities, head),
                            None => false,
                        }
                    } else {
                        false
                    }
                };
                if is_listed_fruit {
                    proof {
                        assert(fruit_listed(a0, head, id));
                        assert(id != head);
                    }
                    events.push(FruitEatenEvent);
                    arena.despawn(id);
                    proof {
                        assert forall|id2: EntityId| #[trigger] a_prev.is_live(id2) && id2 != id
                            implies arena.is_live(id2) && arena.data_of(id2) == a_prev.data_of(
                            id2,
                        ) by {}
                        assert forall|id2: EntityId| id2.idx < i + 1 implies (
                            #[trigger] arena.is_live(id2) <==> (a0.is_live(id2) && !fruit_listed(
                                a0,
                                head,
                                id2,
                            ))) by {
                            if id2.idx == i {
                                if id2 != id {
                                    assert(a0.is_live(id2) ==> id2.gen == a0.slots@[
                                        i as int].gen);
                                    assert(!a0.is_live(id2));
                                    assert(!arena.is_live(id2));
                                }
                            } else {
                                if arena.is_live(id2) {
                                    assert(a_prev.is_live(id2));
                                }
                                if a_prev.is_live(id2) {
                                    assert(id2 != id);
                                }
                            }
                        }
                    }
                } else {
                    proof {
                        assert(!fruit_listed(a0, head, id));
                        assert forall|id2: EntityId| id2.idx == i && id2 != id implies !(
                            #[trigger] arena.is_live(id2)) && !a0.is_live(id2) by {}
                    }
                }
            },
            None => {
                proof {
                    assert(arena.slots@[i as int].data is None);
                    assert(a0.slots@[i as int].data is None);
                    assert forall|id: EntityId| id.idx == i implies !a0.is_live(id)
                        && !arena.is_live(id) by {}
                }
            },
        }
        i = i + 1;
    }
    er.send_batch(events);
    proof {
        assert forall|id: EntityId| #[trigger] arena.is_live(id) implies (a0.is_live(id)
            && !fruit_listed(a0, head, id)) by {
            assert(id.idx < n);
        }
        assert forall|id: EntityId| a0.is_live(id) && !fruit_listed(a0, head, id)
            implies arena.is_live(id) by {
            assert(id.idx < n);
        }
        assert(!fruit_listed(a0, head, head));
    }
}

/// Linear scan for a handle in a list.
pub fn contains_id(v: &Vec<EntityId>, x: EntityId) -> (r: bool)
    ensures
        r == v@.contains(x),
{
    let mut k: usize = 0;
    while k < v.len()
        invariant
            0 <= k <= v.len(),
            forall|t: int| 0 <= t < k ==> v@[t] != x,
        decreases v.len() - k,
    {
        if v[k] == x {
            proof {
                assert(v@.contains(x));
            }
            return true;
        }
        k = k + 1;
    }
    false
}

/// The shape a pending overlap list must have for slot `k`: if the slot
/// holds a collider-carrying entity, the list is exactly that entity's
/// colliding set; otherwise it is unused and empty.
pub open spec fn good_list(a: Arena, k: int, list: Seq<EntityId>) -> bool {
    if a.slots@[k].data is Some && a.data_of(slot_id(a, k)).collider is Some {
        forall|y: EntityId| #[trigger] list.contains(y) <==> colliding(a, slot_id(a, k), y)
    } else {
        list.len() == 0
    }
}

} // verus!
