//! Tests for the 3D sandbox pieces: the accelerated integrator, the
//! flight-intent mapping and the asteroid spawn pacing.

use snek_core::asteroid::{asteroid_spawn_translation, SpawnTimer};
use snek_core::movement::integrate_accelerated;
use snek_core::spaceship::spaceship_intent;
use snek_core::snek::Key;
use snek_core::vec3::Vec3i;

fn v(x: i64, y: i64, z: i64) -> Vec3i {
    Vec3i { x, y, z }
}

#[test]
fn accelerated_integration_is_semi_implicit() {
    // Velocity absorbs the acceleration first; the advanced velocity then
    // carries the position.
    let (pos, vel) = integrate_accelerated(v(0, 0, 0), v(1, 2, 3), v(1, 0, -1), 2);
    assert_eq!(vel, v(3, 2, 1));
    assert_eq!(pos, v(6, 4, 2));
}

#[test]
fn integration_with_zero_dt_changes_nothing() {
    let (pos, vel) = integrate_accelerated(v(5, 5, 5), v(1, 1, 1), v(9, 9, 9), 0);
    assert_eq!(vel, v(1, 1, 1));
    assert_eq!(pos, v(5, 5, 5));
}

#[test]
fn flight_intent_reads_the_held_keys() {
    let r = spaceship_intent(&vec![Key::W, Key::D, Key::J, Key::Space]);
    assert_eq!(r.movement, 1);
    assert_eq!(r.rotation, 1);
    assert_eq!(r.roll, -1);
    assert!(r.fire);
}

#[test]
fn flight_intent_priorities_and_idle() {
    // Forward wins over backward, leftward over rightward.
    let r = spaceship_intent(&vec![Key::S, Key::W, Key::A, Key::D]);
    assert_eq!(r.movement, 1);
    assert_eq!(r.rotation, -1);
    assert_eq!(r.roll, 0);
    assert!(!r.fire);
    let idle = spaceship_intent(&vec![]);
    assert_eq!(idle.movement, 0);
    assert_eq!(idle.rotation, 0);
    assert_eq!(idle.roll, 0);
    assert!(!idle.fire);
}

#[test]
fn spawn_timer_fires_on_crossing_the_period() {
    let mut t = SpawnTimer::new(300);
    assert!(!t.tick(100));
    assert!(!t.tick(100));
    assert!(t.tick(150));
    // 350 accumulated, wrapped modulo the period.
    assert_eq!(t.elapsed_ns, 50);
    assert!(!t.tick(100));
}

#[test]
fn asteroid_translations_stay_in_the_spawn_volume() {
    for _ in 0..50 {
        let p = asteroid_spawn_translation();
        assert!(-50 <= p.x && p.x < 50);
        assert!(-5 <= p.y && p.y < 5);
        assert!(-50 <= p.z && p.z < 50);
    }
}
