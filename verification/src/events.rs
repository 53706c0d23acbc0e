//! Typed event bus: one FIFO queue per event kind, with double-buffered
//! lifetime. An event written in one scheduler update stays readable through
//! the next update and is discarded by the one after that, unless a consumer
//! drains or clears the queue first.

use vstd::prelude::*;

verus! {

/// A FIFO queue of events of one kind.
///
/// `previous` holds the events that have already survived one update;
/// `current` holds the events written since the last update. Readers see
/// both, oldest first.
pub struct EventQueue<T> {
    pub previous: Vec<T>,
    pub current: Vec<T>,
}

impl<T> EventQueue<T> {
    /// Everything a reader would see right now, oldest first.
    pub open spec fn readable(self) -> Seq<T> {
        self.previous@ + self.current@
    }

    /// An empty queue.
    pub fn new() -> (q: EventQueue<T>)
        ensures
            q.previous@ == Seq::<T>::empty(),
            q.current@ == Seq::<T>::empty(),
    {
        EventQueue { previous: Vec::new(), current: Vec::new() }
    }

    /// Write one event.
    pub fn send(&mut self, e: T)
        ensures
            final(self).previous@ == old(self).previous@,
            final(self).current@ == old(self).current@.push(e),
    {
        self.current.push(e);
    }

    /// Write zero or more events in one call, in order.
    pub fn send_batch(&mut self, batch: Vec<T>)
        ensures
            final(self).previous@ == old(self).previous@,
            final(self).current@ == old(self).current@ + batch@,
    {
        let mut batch = batch;
        self.current.append(&mut batch);
    }

    /// Advance the double buffer: events that had already survived one
    /// update are discarded, fresh events become one update old.
    pub fn update(&mut self)
        ensures
            final(self).previous@ == old(self).current@,
            final(self).current@ == Seq::<T>::empty(),
    {
        let mut fresh: Vec<T> = Vec::new();
        core::mem::swap(&mut self.current, &mut fresh);
        self.previous = fresh;
    }

    /// Discard every event at once.
    pub fn clear(&mut self)
        ensures
            final(self).previous@ == Seq::<T>::empty(),
            final(self).current@ == Seq::<T>::empty(),
    {
        self.previous = Vec::new();
        self.current = Vec::new();
    }

    /// Take every readable event out of the queue, oldest first,
    /// leaving it empty.
    pub fn drain(&mut self) -> (r: Vec<T>)
        ensures
            r@ == old(self).readable(),
            final(self).previous@ == Seq::<T>::empty(),
            final(self).current@ == Seq::<T>::empty(),
    {
        let mut out: Vec<T> = Vec::new();
        core::mem::swap(&mut self.previous, &mut out);
        let mut fresh: Vec<T> = Vec::new();
        core::mem::swap(&mut self.current, &mut fresh);
        out.append(&mut fresh);
        out
    }

    /// How many events are readable.
    pub fn len(&self) -> (n: usize)
        requires
            self.readable().len() <= usize::MAX,
        ensures
            n == self.readable().len(),
    {
        self.previous.len() + self.current.len()
    }
}

impl<T: Copy> EventQueue<T> {
    /// Copy every readable event out, oldest first, without consuming any.
    pub fn read_all(&self) -> (r: Vec<T>)
        ensures
            r@ == self.readable(),
    {
        let mut out: Vec<T> = Vec::new();
        let mut i: usize = 0;
        while i < self.previous.len()
            invariant
                0 <= i <= self.previous.len(),
                out@ == self.previous@.subrange(0, i as int),
            decreases self.previous.len() - i,
        {
            out.push(self.previous[i]);
            proof {
                assert(out@ =~= self.previous@.subrange(0, i + 1));
            }
            i = i + 1;
        }
        proof {
            assert(out@ =~= self.previous@);
        }
        let mut j: usize = 0;
        while j < self.current.len()
            invariant
                0 <= j <= self.current.len(),
                out@ == self.previous@ + self.current@.subrange(0, j as int),
            decreases self.current.len() - j,
        {
            out.push(self.current[j]);
            proof {
                assert(out@ =~= self.previous@ + self.current@.subrange(0, j + 1));
            }
            j = j + 1;
        }
        proof {
            assert(out@ =~= self.readable());
        }
        out
    }
}

/// Scheduler-driven expiration: advances the double buffer of one queue.
/// Registered once per automatically managed event kind.
pub fn event_manager<T>(events: &mut EventQueue<T>)
    ensures
        final(events).previous@ == old(events).current@,
        final(events).current@ == Seq::<T>::empty(),
{
    events.update();
}

/// Manual single-batch expiration: discards the whole queue at a known
/// point, for event kinds whose consumer must see each event exactly once.
pub fn my_event_manager<T>(events: &mut EventQueue<T>)
    ensures
        final(events).previous@ == Seq::<T>::empty(),
        final(events).current@ == Seq::<T>::empty(),
{
    events.clear();
}

} // verus!
