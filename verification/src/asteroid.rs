//! The 3D sandbox's asteroid field: a repeating spawn timer decides when a
//! new asteroid appears, and a random translation inside the spawn volume
//! says where. Scene handles and the velocity direction (a normalized
//! random vector) belong to the host.

use vstd::prelude::*;

use crate::vec3::Vec3i;

verus! {

/// A marker for an asteroid.
#[derive(Copy, Clone, Debug, PartialEq, Eq, Structural)]
pub struct Asteroid;

/// Half-extent of the spawn volume along the two horizontal axes.
pub const SPAWN_EXTENT_XZ: i64 = 50;

/// Half-extent of the spawn volume along the vertical axis.
pub const SPAWN_EXTENT_Y: i64 = 5;

/// The repeating timer that paces asteroid spawning: fires once each time
/// the accumulated time crosses the period, the surplus wrapping around.
#[derive(Copy, Clone, Debug, PartialEq, Eq, Structural)]
pub struct SpawnTimer {
    pub period_ns: u64,
    pub elapsed_ns: u64,
}

impl SpawnTimer {
    /// A repeating timer with the given period and no time accumulated.
    pub fn new(period_ns: u64) -> (t: SpawnTimer)
        requires
            period_ns > 0,
        ensures
            t.period_ns == period_ns,
            t.elapsed_ns == 0,
    {
        SpawnTimer { period_ns, elapsed_ns: 0 }
    }

    /// Advance the timer by one frame's real time; report whether it just
    /// finished. On finishing, the accumulated time wraps modulo the
    /// period, so long frames cannot make it drift.
    pub fn tick(&mut self, delta_ns: u64) -> (just_finished: bool)
        requires
            old(self).period_ns > 0,
            old(self).elapsed_ns + delta_ns <= u64::MAX,
        ensures
            final(self).period_ns == old(self).period_ns,
            just_finished == (old(self).elapsed_ns + delta_ns >= old(self).period_ns),
            final(self).elapsed_ns == (if old(self).elapsed_ns + delta_ns >= old(
                self,
            ).period_ns {
                (old(self).elapsed_ns + delta_ns) as u64 % old(self).period_ns
            } else {
                (old(self).elapsed_ns + delta_ns) as u64
            }),
            final(self).elapsed_ns < old(self).period_ns || !just_finished,
    {
        let total: u64 = self.elapsed_ns + delta_ns;
        if total >= self.period_ns {
            self.elapsed_ns = total % self.period_ns;
            true
        } else {
            self.elapsed_ns = total;
            false
        }
    }
}

/// Roll a spawn translation inside the spawn volume: wide on the two
/// horizontal axes, shallow on the vertical one.
pub fn asteroid_spawn_translation() -> (p: Vec3i)
    ensures
        -SPAWN_EXTENT_XZ <= p.x < SPAWN_EXTENT_XZ,
        -SPAWN_EXTENT_Y <= p.y < SPAWN_EXTENT_Y,
        -SPAWN_EXTENT_XZ <= p.z < SPAWN_EXTENT_XZ,
{
    let x = crate::fruit::rand_range(-SPAWN_EXTENT_XZ, SPAWN_EXTENT_XZ);
    let y = crate::fruit::rand_range(-SPAWN_EXTENT_Y, SPAWN_EXTENT_Y);
    let z = crate::fruit::rand_range(-SPAWN_EXTENT_XZ, SPAWN_EXTENT_XZ);
    Vec3i { x, y, z }
}

} // verus!
