//! Tests for the chain game: input rule, growth, velocity relay, pickup
//! detection, terminal rules, and the full step and frame scenarios.

use snek_core::arena::{Collider, EntityData, EntityKind};
use snek_core::collision::FruitEatenEvent;
use snek_core::fixed_timestep::FREEZE_NS;
use snek_core::fruit::spawn_fruits;
use snek_core::movement::MovementEvent;
use snek_core::snek::{
    add_child, despawn_snek, fruit_collision, handle_snek_input, move_children, run_fixed_tick,
    self_collision, snek_collision, update_last_dir, wall_collision, Direction, Game, Key,
};
use snek_core::vec3::Vec3i;

fn v(x: i64, y: i64, z: i64) -> Vec3i {
    Vec3i { x, y, z }
}

fn head_pos(g: &Game) -> Vec3i {
    g.arena.get(g.head).unwrap().pos
}

fn head_vel(g: &Game) -> Vec3i {
    g.arena.get(g.head).unwrap().vel.unwrap()
}

fn seg_pos(g: &Game, i: usize) -> Vec3i {
    g.arena.get(g.snek.children[i]).unwrap().pos
}

fn seg_vel(g: &Game, i: usize) -> Vec3i {
    g.arena.get(g.snek.children[i]).unwrap().vel.unwrap()
}

/// Grow the chain by `n` segments through the growth rule itself.
fn grow(g: &mut Game, n: usize) {
    for _ in 0..n {
        g.fruit_events.send(FruitEatenEvent);
        add_child(g);
    }
}

#[test]
fn new_game_has_a_resting_head_and_no_segments() {
    let g = Game::new();
    assert_eq!(head_pos(&g), v(10, 10, 1));
    assert_eq!(head_vel(&g), v(0, 0, 0));
    assert!(g.snek.children.is_empty());
    assert_eq!(g.snek.dir, Direction::Idle);
    assert_eq!(g.clock.step_ns, 150_000_000);
    assert_eq!(g.score(), 1);
}

#[test]
fn direction_val_gives_unit_vectors() {
    assert_eq!(Direction::Left.val(), v(-1, 0, 0));
    assert_eq!(Direction::Right.val(), v(1, 0, 0));
    assert_eq!(Direction::Up.val(), v(0, 1, 0));
    assert_eq!(Direction::Down.val(), v(0, -1, 0));
    assert_eq!(Direction::Idle.val(), v(0, 0, 0));
}

#[test]
fn input_sets_direction_and_one_step_velocity() {
    let mut g = Game::new();
    handle_snek_input(&mut g, &vec![Key::D]);
    assert_eq!(g.snek.dir, Direction::Right);
    assert_eq!(head_vel(&g), v(20, 0, 0));
}

#[test]
fn input_rejects_the_reverse_of_the_last_accepted_direction() {
    let mut g = Game::new();
    handle_snek_input(&mut g, &vec![Key::W]);
    update_last_dir(&mut g);
    // Down is the reverse of the last accepted Up: rejected.
    handle_snek_input(&mut g, &vec![Key::S]);
    assert_eq!(g.snek.dir, Direction::Up);
    assert_eq!(head_vel(&g), v(0, 20, 0));
    // A turn is fine.
    handle_snek_input(&mut g, &vec![Key::A]);
    assert_eq!(g.snek.dir, Direction::Left);
    assert_eq!(head_vel(&g), v(-20, 0, 0));
}

#[test]
fn same_frame_double_input_cannot_reverse() {
    // Head going Up with a five-segment body; Down arrives in the same
    // frame, before the last accepted direction is refreshed.
    let mut g = Game::new();
    grow(&mut g, 5);
    handle_snek_input(&mut g, &vec![Key::W]);
    update_last_dir(&mut g);
    handle_snek_input(&mut g, &vec![Key::S]);
    // Down was the reverse of the last accepted Up: the head continues Up.
    assert_eq!(g.snek.dir, Direction::Up);
    assert_eq!(head_vel(&g), v(0, 20, 0));
    assert_eq!(g.snek.children.len(), 5);
}

#[test]
fn growth_appends_one_segment_per_pickup_event() {
    let mut g = Game::new();
    let head_at = head_pos(&g);
    g.fruit_events.send(FruitEatenEvent);
    let step_before = g.clock.step_ns;
    add_child(&mut g);
    // Exactly one growth, at the head's position since the chain was empty.
    assert_eq!(g.snek.children.len(), 1);
    assert_eq!(seg_pos(&g, 0), head_at);
    assert_eq!(seg_vel(&g, 0), v(0, 0, 0));
    // The pickup queue was drained: a second pass grows nothing.
    add_child(&mut g);
    assert_eq!(g.snek.children.len(), 1);
    // The step duration shrank once.
    assert_eq!(g.clock.step_ns, step_before * 9978 / 10000);
}

#[test]
fn growth_appends_at_the_prior_tail() {
    let mut g = Game::new();
    grow(&mut g, 1);
    // Move the tail somewhere recognisable, then grow again.
    let tail = g.snek.children[0];
    g.arena.set_pos(tail, v(70, 90, 0));
    g.fruit_events.send(FruitEatenEvent);
    add_child(&mut g);
    assert_eq!(g.snek.children.len(), 2);
    assert_eq!(seg_pos(&g, 1), v(70, 90, 0));
}

#[test]
fn velocity_relay_shifts_the_chain_by_one() {
    let mut g = Game::new();
    grow(&mut g, 3);
    handle_snek_input(&mut g, &vec![Key::D]);
    // Give the segments recognisable velocities.
    let s0 = g.snek.children[0];
    let s1 = g.snek.children[1];
    let s2 = g.snek.children[2];
    g.arena.set_vel(s0, Some(v(0, 20, 0)));
    g.arena.set_vel(s1, Some(v(-20, 0, 0)));
    g.arena.set_vel(s2, Some(v(0, -20, 0)));
    // The head moved this step.
    g.movement_events.send(MovementEvent(g.head));
    move_children(&mut g);
    // Segment 0 takes the head's velocity; each later segment takes the
    // velocity its predecessor held before the pass.
    assert_eq!(seg_vel(&g, 0), v(20, 0, 0));
    assert_eq!(seg_vel(&g, 1), v(0, 20, 0));
    assert_eq!(seg_vel(&g, 2), v(-20, 0, 0));
    // The head's own velocity is untouched.
    assert_eq!(head_vel(&g), v(20, 0, 0));
}

#[test]
fn velocity_relay_ignores_other_movers() {
    let mut g = Game::new();
    grow(&mut g, 2);
    handle_snek_input(&mut g, &vec![Key::D]);
    let s0 = g.snek.children[0];
    g.arena.set_vel(s0, Some(v(0, 20, 0)));
    // A movement event for a segment, not the head: no relay.
    g.movement_events.send(MovementEvent(s0));
    move_children(&mut g);
    assert_eq!(seg_vel(&g, 0), v(0, 20, 0));
}

#[test]
fn pickup_despawns_the_fruit_and_emits_one_event() {
    let mut g = Game::new();
    // A fruit within one grid step of the head, and one far away.
    let near = g.arena.spawn(EntityData {
        pos: v(20, 10, 0),
        vel: None,
        collider: Some(Collider::new(20)),
        kind: EntityKind::Fruit,
    });
    let far = g.arena.spawn(EntityData {
        pos: v(200, 10, 0),
        vel: None,
        collider: Some(Collider::new(20)),
        kind: EntityKind::Fruit,
    });
    fruit_collision(&mut g);
    assert!(g.arena.get(near).is_none());
    assert!(g.arena.get(far).is_some());
    assert_eq!(g.fruit_events.len(), 1);
}

#[test]
fn self_collision_skips_the_first_three_segments() {
    let mut g = Game::new();
    grow(&mut g, 4);
    // Spread the chain out behind the head first.
    for i in 0..4 {
        let s = g.snek.children[i];
        g.arena.set_pos(s, v(200 + 20 * i as i64, 200, 0));
    }
    // Segment 2 sits on the head: within the safety skip, no freeze.
    let s2 = g.snek.children[2];
    g.arena.set_pos(s2, head_pos(&g));
    let step_before = g.clock.step_ns;
    self_collision(&mut g);
    assert_eq!(g.clock.step_ns, step_before);
    // Segment 3 on the head: beyond the skip, freeze.
    let s3 = g.snek.children[3];
    g.arena.set_pos(s3, head_pos(&g));
    self_collision(&mut g);
    assert_eq!(g.clock.step_ns, FREEZE_NS);
}

#[test]
fn wall_collision_freezes_on_each_side() {
    for pos in [v(401, 0, 1), v(-401, 0, 1), v(0, 301, 1), v(0, -301, 1)] {
        let mut g = Game::new();
        g.arena.set_pos(g.head, pos);
        wall_collision(&mut g);
        assert_eq!(g.clock.step_ns, FREEZE_NS, "head at {:?}", pos);
    }
    // On the playfield nothing happens.
    let mut g = Game::new();
    g.arena.set_pos(g.head, v(400, 300, 1));
    let step_before = g.clock.step_ns;
    wall_collision(&mut g);
    assert_eq!(g.clock.step_ns, step_before);
}

#[test]
fn despawning_the_head_cascades_to_every_segment() {
    let mut g = Game::new();
    grow(&mut g, 3);
    let head = g.head;
    let segs: Vec<_> = g.snek.children.clone();
    let bystander = g.arena.spawn(EntityData {
        pos: v(100, 100, 0),
        vel: None,
        collider: None,
        kind: EntityKind::Fruit,
    });
    despawn_snek(&mut g);
    assert!(g.arena.get(head).is_none());
    for s in segs {
        assert!(g.arena.get(s).is_none());
    }
    assert!(g.snek.children.is_empty());
    assert!(g.arena.get(bystander).is_some());
}

#[test]
fn snek_collision_fires_only_on_a_listed_head() {
    let mut g = Game::new();
    grow(&mut g, 2);
    assert!(!snek_collision(&mut g));
    assert!(g.arena.get(g.head).is_some());
    // Write the head into a segment's overlap list by hand.
    let s1 = g.snek.children[1];
    g.arena.set_overlaps(s1, vec![g.head]);
    assert!(snek_collision(&mut g));
    assert!(g.arena.get(g.head).is_none());
    assert!(g.snek.children.is_empty());
}

#[test]
fn one_step_moves_the_head_and_announces_it() {
    let mut g = Game::new();
    handle_snek_input(&mut g, &vec![Key::D]);
    run_fixed_tick(&mut g);
    assert_eq!(head_pos(&g), v(30, 10, 1));
    assert_eq!(g.last_dir, Direction::Right);
    // One mover, one movement event, readable within the step.
    assert_eq!(g.movement_events.read_all(), vec![MovementEvent(g.head)]);
}

#[test]
fn pickup_scenario_grows_by_one_at_the_growth_position() {
    // Head one step left of a fruit; one step moves it onto the fruit.
    let mut g = Game::new();
    let fruit = g.arena.spawn(EntityData {
        pos: v(30, 10, 0),
        vel: None,
        collider: Some(Collider::new(20)),
        kind: EntityKind::Fruit,
    });
    handle_snek_input(&mut g, &vec![Key::D]);
    run_fixed_tick(&mut g);
    // The pickup is despawned and exactly one growth event is pending.
    assert!(g.arena.get(fruit).is_none());
    assert_eq!(g.fruit_events.len(), 1);
    assert!(g.snek.children.is_empty());
    // The next step consumes the event: one segment, spawned where the
    // head stands when growth runs (after that step's integration).
    run_fixed_tick(&mut g);
    assert_eq!(g.snek.children.len(), 1);
    assert_eq!(seg_pos(&g, 0), v(50, 10, 1));
    assert_eq!(head_pos(&g), v(50, 10, 1));
}

#[test]
fn crossing_the_wall_freezes_the_simulation() {
    let mut g = Game::new();
    // March the head right until it crosses x = 400; each 150 ms frame
    // fires one step of 20 units from x = 10, so the 20th step lands on
    // x = 410 and the post-step wall rule freezes the clock.
    let mut fired_steps = 0;
    for _ in 0..40 {
        if g.clock.step_ns >= FREEZE_NS {
            break;
        }
        let fired = snek_core::snek::frame(&mut g, &vec![Key::D], 150_000_000);
        if fired {
            fired_steps += 1;
        }
    }
    assert!(g.clock.step_ns >= 999_999_000_000_000);
    assert!(fired_steps >= 20);
    let frozen_at = head_pos(&g);
    assert!(frozen_at.x > 400);
    // A hundred further frames: no step fires, nothing moves.
    for _ in 0..100 {
        let fired = snek_core::snek::frame(&mut g, &vec![Key::D], 16_000_000);
        assert!(!fired);
        assert_eq!(head_pos(&g), frozen_at);
    }
}

#[test]
fn score_counts_head_plus_segments() {
    let mut g = Game::new();
    grow(&mut g, 4);
    assert_eq!(g.score(), 5);
}

#[test]
fn replacement_fruits_sit_on_board_cells() {
    let mut g = Game::new();
    let ids = spawn_fruits(&mut g, 50);
    assert_eq!(ids.len(), 50);
    let mut positions = Vec::new();
    for id in &ids {
        let d = g.arena.get(*id).unwrap();
        assert_eq!(d.kind, EntityKind::Fruit);
        assert!(d.vel.is_none());
        let p = d.pos;
        assert_eq!((p.x - 10).rem_euclid(20), 0, "{:?}", p);
        assert_eq!((p.y - 10).rem_euclid(20), 0, "{:?}", p);
        assert!(p.x.abs() < 400 && p.y.abs() < 300 && p.z == 0, "{:?}", p);
        positions.push(p);
    }
    // Fifty random cells out of twelve hundred: a fixed generator that
    // echoed one value back would put them all on the same cell.
    let first = positions[0];
    assert!(positions.iter().any(|p| *p != first));
}

#[test]
fn relay_on_an_empty_chain_is_a_no_op() {
    let mut g = Game::new();
    handle_snek_input(&mut g, &vec![Key::D]);
    g.movement_events.send(MovementEvent(g.head));
    move_children(&mut g);
    assert!(g.snek.children.is_empty());
    assert_eq!(head_vel(&g), v(20, 0, 0));
}

#[test]
fn a_step_with_no_events_is_the_common_case() {
    // No pending events of any kind: the step still runs to completion and
    // the chain neither grows nor dies.
    let mut g = Game::new();
    run_fixed_tick(&mut g);
    assert!(g.snek.children.is_empty());
    assert_eq!(head_pos(&g), v(10, 10, 1));
    assert!(g.clock.step_ns < FREEZE_NS);
}
