//! The tick scheduler's clock: decouples variable-rate frames from a
//! fixed-duration simulation step. Real time accumulates each frame; when the
//! accumulator reaches the configured step duration, exactly one step fires
//! and the duration is subtracted, any surplus carrying to the next frame.
//!
//! The step duration is mutable at runtime: growth shortens it (speed-up) and
//! terminal collisions inflate it past every reachable accumulator value, so
//! that no further step ever fires (freeze).

use vstd::prelude::*;

verus! {

/// Initial step duration: 150 ms.
pub const STARTING_DELAY_NS: u64 = 150_000_000;

/// Step duration installed by a terminal collision: 999 999 s, far beyond
/// any accumulator value a run can reach.
pub const FREEZE_NS: u64 = 999_999_000_000_000;

/// Numerator of the speed-up factor applied on growth.
pub const SPEED_UP_NUM: u64 = 9978;

/// Denominator of the speed-up factor applied on growth.
pub const SPEED_UP_DEN: u64 = 10000;

/// The simulation clock: configured step duration and leftover accumulated
/// time, both in nanoseconds.
#[derive(Copy, Clone, Debug, PartialEq, Eq, Structural)]
pub struct TickClock {
    pub step_ns: u64,
    pub accum_ns: u64,
}

impl TickClock {
    /// Whether adding `elapsed_ns` of real time makes a step fire.
    pub open spec fn fires(self, elapsed_ns: u64) -> bool {
        self.accum_ns + elapsed_ns >= self.step_ns
    }

    /// The clock after one frame of `elapsed_ns` real time.
    pub open spec fn after_frame(self, elapsed_ns: u64) -> TickClock {
        if self.fires(elapsed_ns) {
            TickClock {
                step_ns: self.step_ns,
                accum_ns: (self.accum_ns + elapsed_ns - self.step_ns) as u64,
            }
        } else {
            TickClock { step_ns: self.step_ns, accum_ns: (self.accum_ns + elapsed_ns) as u64 }
        }
    }

    /// A clock with step duration `step_ns` and an empty accumulator.
    pub fn new(step_ns: u64) -> (c: TickClock)
        ensures
            c.step_ns == step_ns,
            c.accum_ns == 0,
    {
        TickClock { step_ns, accum_ns: 0 }
    }

    /// Add one frame of real time; report whether a step fires. At most one
    /// step fires per frame, the surplus stays in the accumulator.
    pub fn advance(&mut self, elapsed_ns: u64) -> (fired: bool)
        requires
            old(self).accum_ns + elapsed_ns <= u64::MAX,
        ensures
            fired == old(self).fires(elapsed_ns),
            *final(self) == old(self).after_frame(elapsed_ns),
    {
        self.accum_ns = self.accum_ns + elapsed_ns;
        if self.accum_ns >= self.step_ns {
            self.accum_ns = self.accum_ns - self.step_ns;
            true
        } else {
            false
        }
    }

    /// Shorten the step duration by the growth speed-up factor
    /// (slightly below one), raising the simulation rate.
    pub fn speed_up(&mut self)
        requires
            old(self).step_ns <= FREEZE_NS,
        ensures
            final(self).step_ns == old(self).step_ns * SPEED_UP_NUM / (SPEED_UP_DEN as int),
            final(self).accum_ns == old(self).accum_ns,
    {
        let s: u64 = self.step_ns;
        assert(s * SPEED_UP_NUM <= FREEZE_NS * SPEED_UP_NUM) by (nonlinear_arith)
            requires s <= FREEZE_NS,
        ;
        self.step_ns = s * SPEED_UP_NUM / SPEED_UP_DEN;
    }

    /// Inflate the step duration to the freeze value; the accumulator is
    /// left as it is and can never reach the new threshold in a real run.
    pub fn freeze(&mut self)
        ensures
            final(self).step_ns == FREEZE_NS,
            final(self).accum_ns == old(self).accum_ns,
    {
        self.step_ns = FREEZE_NS;
    }
}

/// Total of a sequence of per-frame elapsed times.
pub open spec fn total_elapsed(frames: Seq<u64>) -> int
    decreases frames.len(),
{
    if frames.len() == 0 {
        0
    } else {
        frames[0] + total_elapsed(frames.drop_first())
    }
}

/// The clock after a whole sequence of frames.
pub open spec fn run_frames(c: TickClock, frames: Seq<u64>) -> TickClock
    decreases frames.len(),
{
    if frames.len() == 0 {
        c
    } else {
        run_frames(c.after_frame(frames[0]), frames.drop_first())
    }
}

/// Whether any frame of the sequence makes a step fire.
pub open spec fn any_fire(c: TickClock, frames: Seq<u64>) -> bool
    decreases frames.len(),
{
    if frames.len() == 0 {
        false
    } else {
        c.fires(frames[0]) || any_fire(c.after_frame(frames[0]), frames.drop_first())
    }
}

/// Freeze idempotence: once the step duration exceeds the accumulator plus
/// all real time still to come, no frame of that time ever fires a step; the
/// accumulator merely collects the elapsed time and the duration stays put.
pub proof fn lemma_freeze_halts_stepping(c: TickClock, frames: Seq<u64>)
    requires
        c.accum_ns + total_elapsed(frames) < c.step_ns,
        forall|i: int| 0 <= i < frames.len() ==> frames[i] >= 0,
    ensures
        !any_fire(c, frames),
        run_frames(c, frames).step_ns == c.step_ns,
        run_frames(c, frames).accum_ns == c.accum_ns + total_elapsed(frames),
    decreases frames.len(),
{
    if frames.len() > 0 {
        lemma_total_elapsed_nonneg(frames.drop_first());
        assert(!c.fires(frames[0]));
        lemma_freeze_halts_stepping(c.after_frame(frames[0]), frames.drop_first());
    }
}

/// The total of a sequence of elapsed times is never negative.
pub proof fn lemma_total_elapsed_nonneg(frames: Seq<u64>)
    ensures
        total_elapsed(frames) >= 0,
    decreases frames.len(),
{
    if frames.len() > 0 {
        lemma_total_elapsed_nonneg(frames.drop_first());
    }
}

} // verus!
