//! The 3D sandbox's ship: maps the flight keys onto a movement, rotation
//! and roll intent, and a fire intent for the missile launcher. The host
//! scales the signs by its frame time and applies them to the ship's
//! transform.

use vstd::prelude::*;

use crate::snek::Key;

verus! {

/// A marker for the player's ship.
#[derive(Copy, Clone, Debug, PartialEq, Eq, Structural)]
pub struct Spaceship;

/// A marker for a missile the ship fired.
#[derive(Copy, Clone, Debug, PartialEq, Eq, Structural)]
pub struct SpaceshipMissile;

/// What the flight keys ask for this frame, as signs: thrust along the
/// ship's forward axis, yaw, roll, and whether to fire.
#[derive(Copy, Clone, Debug, PartialEq, Eq, Structural)]
pub struct FlightIntent {
    pub movement: i64,
    pub rotation: i64,
    pub roll: i64,
    pub fire: bool,
}

/// Whether `k` is among the pressed keys.
pub open spec fn key_held(pressed: Seq<Key>, k: Key) -> bool {
    pressed.contains(k)
}

/// Thrust sign: forward wins over backward when both are held.
pub open spec fn movement_sign(pressed: Seq<Key>) -> int {
    if key_held(pressed, Key::W) {
        1
    } else if key_held(pressed, Key::S) {
        -1
    } else {
        0
    }
}

/// Yaw sign: leftward wins over rightward when both are held.
pub open spec fn rotation_sign(pressed: Seq<Key>) -> int {
    if key_held(pressed, Key::A) {
        -1
    } else if key_held(pressed, Key::D) {
        1
    } else {
        0
    }
}

/// Roll sign: the one roll key wins over the other when both are held.
pub open spec fn roll_sign(pressed: Seq<Key>) -> int {
    if key_held(pressed, Key::J) {
        -1
    } else if key_held(pressed, Key::K) {
        1
    } else {
        0
    }
}

/// Linear scan for a key in the pressed set.
fn holds(pressed: &Vec<Key>, k: Key) -> (r: bool)
    ensures
        r == key_held(pressed@, k),
{
    let mut i: usize = 0;
    while i < pressed.len()
        invariant
            0 <= i <= pressed.len(),
            forall|t: int| 0 <= t < i ==> pressed@[t] != k,
        decreases pressed.len() - i,
    {
        if pressed[i] == k {
            proof {
                assert(pressed@.contains(k));
            }
            return true;
        }
        i = i + 1;
    }
    false
}

/// Read this frame's flight intent off the pressed keys: thrust, yaw and
/// roll signs with the documented priorities, and fire when the fire key
/// is held.
pub fn spaceship_intent(pressed: &Vec<Key>) -> (r: FlightIntent)
    ensures
        r.movement == movement_sign(pressed@),
        r.rotation == rotation_sign(pressed@),
        r.roll == roll_sign(pressed@),
        r.fire == key_held(pressed@, Key::Space),
{
    let mut movement: i64 = 0;
    let mut rotation: i64 = 0;
    let mut roll: i64 = 0;
    if holds(pressed, Key::W) {
        movement = 1;
    } else if holds(pressed, Key::S) {
        movement = -1;
    }
    if holds(pressed, Key::A) {
        rotation = -1;
    } else if holds(pressed, Key::D) {
        rotation = 1;
    }
    if holds(pressed, Key::J) {
        roll = -1;
    } else if holds(pressed, Key::K) {
        roll = 1;
    }
    let fire = holds(pressed, Key::Space);
    FlightIntent { movement, rotation, roll, fire }
}

} // verus!
