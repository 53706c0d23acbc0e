//! Tests for the engine primitives: vectors, the event bus, the tick
//! clock, the spawn timer, the entity arena and the collision detector.

use snek_core::arena::{Arena, Collider, EntityData, EntityId, EntityKind};
use snek_core::collision::collision_detection;
use snek_core::events::{event_manager, my_event_manager, EventQueue};
use snek_core::fixed_timestep::{TickClock, FREEZE_NS, STARTING_DELAY_NS};
use snek_core::movement::{update_position, MovementEvent};
use snek_core::vec3::Vec3i;

fn v(x: i64, y: i64, z: i64) -> Vec3i {
    Vec3i { x, y, z }
}

fn plain(pos: Vec3i, radius: i64) -> EntityData {
    EntityData {
        pos,
        vel: None,
        collider: Some(Collider::new(radius * 2)),
        kind: EntityKind::Fruit,
    }
}

#[test]
fn vec3_add_and_scale_are_exact() {
    let a = v(1, -2, 3);
    let b = v(10, 20, -30);
    assert_eq!(a.add(b), v(11, 18, -27));
    assert_eq!(a.scale(-4), v(-4, 8, -12));
    assert_eq!(Vec3i::zero(), v(0, 0, 0));
}

#[test]
fn dist_sq_is_the_sum_of_squared_differences() {
    assert_eq!(Vec3i::dist_sq(v(0, 0, 0), v(3, 4, 0)), 25);
    assert_eq!(Vec3i::dist_sq(v(1, 1, 1), v(1, 1, 1)), 0);
    assert_eq!(Vec3i::dist_sq(v(-2, 0, 5), v(2, -3, 5)), 25);
}

#[test]
fn collider_new_halves_the_diameter() {
    let c = Collider::new(20);
    assert_eq!(c.radius, 10);
    assert!(c.colliding_entities.is_empty());
}

#[test]
fn event_queue_reads_in_fifo_order() {
    let mut q: EventQueue<u32> = EventQueue::new();
    q.send(1);
    q.send_batch(vec![2, 3]);
    assert_eq!(q.len(), 3);
    assert_eq!(q.read_all(), vec![1, 2, 3]);
    let drained = q.drain();
    assert_eq!(drained, vec![1, 2, 3]);
    assert_eq!(q.len(), 0);
}

#[test]
fn event_queue_expires_after_two_updates() {
    let mut q: EventQueue<u32> = EventQueue::new();
    q.send(7);
    event_manager(&mut q);
    // One update old: still readable.
    assert_eq!(q.read_all(), vec![7]);
    event_manager(&mut q);
    // Two updates old: expired, even though never read.
    assert_eq!(q.len(), 0);
}

#[test]
fn manual_clear_discards_everything_at_once() {
    let mut q: EventQueue<u32> = EventQueue::new();
    q.send(1);
    event_manager(&mut q);
    q.send(2);
    my_event_manager(&mut q);
    assert_eq!(q.len(), 0);
}

#[test]
fn tick_clock_fires_once_the_accumulator_reaches_the_step() {
    let mut c = TickClock::new(100);
    assert!(!c.advance(40));
    assert_eq!(c.accum_ns, 40);
    assert!(c.advance(70));
    // 110 accumulated, one step of 100 consumed, 10 carries over.
    assert_eq!(c.accum_ns, 10);
    assert_eq!(c.step_ns, 100);
}

#[test]
fn tick_clock_fires_at_most_once_per_frame() {
    let mut c = TickClock::new(10);
    // Enough surplus for many steps, but only one fires; the rest carries.
    assert!(c.advance(35));
    assert_eq!(c.accum_ns, 25);
}

#[test]
fn speed_up_scales_the_step_duration_down() {
    let mut c = TickClock::new(STARTING_DELAY_NS);
    c.speed_up();
    assert_eq!(c.step_ns, 150_000_000 * 9978 / 10000);
    assert_eq!(c.step_ns, 149_670_000);
}

#[test]
fn freeze_installs_the_freeze_duration() {
    let mut c = TickClock::new(STARTING_DELAY_NS);
    c.advance(60_000_000);
    c.freeze();
    assert_eq!(c.step_ns, FREEZE_NS);
    assert_eq!(c.step_ns, 999_999_000_000_000);
    // The accumulator is untouched and far below the new threshold.
    assert_eq!(c.accum_ns, 60_000_000);
    assert!(!c.advance(1_000_000_000));
}

#[test]
fn arena_spawn_get_despawn_round_trip() {
    let mut a = Arena::new();
    let id = a.spawn(plain(v(1, 2, 3), 5));
    assert_eq!(a.get(id).unwrap().pos, v(1, 2, 3));
    a.despawn(id);
    assert!(a.get(id).is_none());
}

#[test]
fn arena_reuse_is_generation_tagged() {
    let mut a = Arena::new();
    let first = a.spawn(plain(v(1, 0, 0), 5));
    a.despawn(first);
    let second = a.spawn(plain(v(2, 0, 0), 5));
    // The slot is reused, but the stale handle must not alias the newcomer.
    assert_eq!(second.idx, first.idx);
    assert!(a.get(first).is_none());
    assert_eq!(a.get(second).unwrap().pos, v(2, 0, 0));
}

#[test]
fn arena_spawn_leaves_others_alone() {
    let mut a = Arena::new();
    let one = a.spawn(plain(v(1, 0, 0), 5));
    let two = a.spawn(plain(v(2, 0, 0), 5));
    assert_ne!(one, two);
    assert_eq!(a.get(one).unwrap().pos, v(1, 0, 0));
    assert_eq!(a.get(two).unwrap().pos, v(2, 0, 0));
}

fn overlaps(a: &Arena, id: EntityId) -> Vec<EntityId> {
    a.get(id)
        .unwrap()
        .collider
        .as_ref()
        .unwrap()
        .colliding_entities
        .clone()
}

#[test]
fn collision_detection_matches_the_squared_distance_rule() {
    let mut a = Arena::new();
    // A and B overlap: distance^2 = 225 < (10 + 10)^2 = 400.
    let ea = a.spawn(plain(v(0, 0, 0), 10));
    let eb = a.spawn(plain(v(15, 0, 0), 10));
    // C is far away, and D exactly at the threshold: 400 < 400 is false.
    let ec = a.spawn(plain(v(1000, 0, 0), 10));
    let ed = a.spawn(plain(v(20, 0, 0), 10));
    collision_detection(&mut a);
    let la = overlaps(&a, ea);
    assert!(la.contains(&eb));
    assert!(!la.contains(&ec));
    assert!(!la.contains(&ea));
    // The boundary case: B and D are 5 apart, so they do collide;
    // A and D are exactly 20 apart, so they do not.
    assert!(!la.contains(&ed));
    assert!(overlaps(&a, ed).contains(&eb));
}

#[test]
fn collision_lists_are_symmetric() {
    let mut a = Arena::new();
    let ea = a.spawn(plain(v(0, 0, 0), 10));
    let eb = a.spawn(plain(v(15, 0, 0), 10));
    let ec = a.spawn(plain(v(25, 0, 0), 10));
    collision_detection(&mut a);
    for (x, y) in [(ea, eb), (eb, ec), (ea, ec)] {
        assert_eq!(
            overlaps(&a, x).contains(&y),
            overlaps(&a, y).contains(&x),
        );
    }
}

#[test]
fn collision_lists_are_fully_recomputed() {
    let mut a = Arena::new();
    let ea = a.spawn(plain(v(0, 0, 0), 10));
    let eb = a.spawn(plain(v(15, 0, 0), 10));
    collision_detection(&mut a);
    assert!(overlaps(&a, ea).contains(&eb));
    // Move B out of range: the stale overlap must vanish on the next pass.
    a.set_pos(eb, v(500, 0, 0));
    collision_detection(&mut a);
    assert!(overlaps(&a, ea).is_empty());
    assert!(overlaps(&a, eb).is_empty());
}

#[test]
fn integration_moves_each_entity_by_exactly_its_velocity() {
    let mut a = Arena::new();
    let mover = a.spawn(EntityData {
        pos: v(1, 2, 3),
        vel: Some(v(4, 5, -6)),
        collider: None,
        kind: EntityKind::Segment,
    });
    let still = a.spawn(EntityData {
        pos: v(7, 7, 7),
        vel: Some(v(0, 0, 0)),
        collider: None,
        kind: EntityKind::Segment,
    });
    let inert = a.spawn(EntityData {
        pos: v(9, 9, 9),
        vel: None,
        collider: None,
        kind: EntityKind::Fruit,
    });
    let mut er: EventQueue<MovementEvent> = EventQueue::new();
    update_position(&mut a, &mut er);
    // position' = position + velocity, exactly.
    assert_eq!(a.get(mover).unwrap().pos, v(5, 7, -3));
    // An entity with a zero velocity keeps its position and emits nothing.
    assert_eq!(a.get(still).unwrap().pos, v(7, 7, 7));
    // An entity without a velocity is not integrated at all.
    assert_eq!(a.get(inert).unwrap().pos, v(9, 9, 9));
    assert_eq!(er.read_all(), vec![MovementEvent(mover)]);
}
