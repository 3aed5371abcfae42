//! Accounting for retry-until-complete bulk transfers.
//!
//! A single bulk read or write may move fewer bytes than requested, or time
//! out and move none. The driving loop repeats the underlying call until the
//! full requested length has been transferred, treating a timeout as "zero
//! bytes, try again" and aborting on any other error with the count of bytes
//! moved so far. `Transfer` keeps that count; the loop around the raw calls
//! feeds it one event per attempt and asks it whether the transfer is done.

use vstd::prelude::*;

verus! {

/// What one underlying bulk-transfer attempt reported: either some number of
/// bytes moved, or a timeout that moved none. A hard error is not an event;
/// it aborts the driving loop between events.
#[derive(Clone, Copy, Debug)]
pub enum TransferEvent {
    Bytes(usize),
    TimedOut,
}

/// How many bytes one event moved.
pub open spec fn spec_gain(ev: TransferEvent) -> nat {
    match ev {
        TransferEvent::Bytes(n) => n as nat,
        TransferEvent::TimedOut => 0,
    }
}

/// How many bytes a sequence of events moved in all.
pub open spec fn spec_gained(evs: Seq<TransferEvent>) -> nat
    decreases evs.len(),
{
    if evs.len() == 0 {
        0
    } else {
        spec_gain(evs[0]) + spec_gained(evs.skip(1))
    }
}

/// Progress of one retry-until-complete transfer: `done` of `total` bytes
/// moved so far.
pub struct Transfer {
    pub done: usize,
    pub total: usize,
}

impl Transfer {
    /// The count never runs past the requested length.
    pub open spec fn wf(self) -> bool {
        self.done <= self.total
    }

    /// The transfer is complete once every requested byte is accounted for.
    pub open spec fn complete(self) -> bool {
        self.done == self.total
    }

    /// The state after one event: bytes advance the count, a timeout changes
    /// nothing.
    pub open spec fn spec_apply(self, ev: TransferEvent) -> Transfer
        recommends
            self.done + spec_gain(ev) <= self.total,
    {
        match ev {
            TransferEvent::Bytes(n) => Transfer { done: (self.done + n) as usize, ..self },
            TransferEvent::TimedOut => self,
        }
    }

    /// Starts accounting for a transfer of `total` bytes.
    pub fn new(total: usize) -> (t: Transfer)
        ensures
            t.done == 0,
            t.total == total,
            t.wf(),
    {
        Transfer { done: 0, total }
    }

    /// Records that an attempt moved `n` bytes. The underlying call writes
    /// into the remaining region, so it can report at most the bytes still
    /// owed.
    pub fn on_bytes(&mut self, n: usize)
        requires
            old(self).wf(),
            n <= old(self).total - old(self).done,
        ensures
            *final(self) == old(self).spec_apply(TransferEvent::Bytes(n)),
            final(self).done == old(self).done + n,
            final(self).total == old(self).total,
            final(self).wf(),
    {
        self.done = self.done + n;
    }

    /// Records that an attempt timed out: nothing moved, the loop simply
    /// tries again.
    pub fn on_timeout(&mut self)
        ensures
            *final(self) == old(self).spec_apply(TransferEvent::TimedOut),
            *final(self) == *old(self),
    {
    }

    /// How many bytes are still owed.
    pub fn remaining(&self) -> (r: usize)
        requires
            self.wf(),
        ensures
            r == self.total - self.done,
    {
        self.total - self.done
    }

    /// Whether every requested byte has been moved.
    pub fn is_complete(&self) -> (r: bool)
        ensures
            r == self.complete(),
    {
        self.done == self.total
    }
}

/// The state after a whole sequence of events, applied in order.
pub open spec fn spec_run(t: Transfer, evs: Seq<TransferEvent>) -> Transfer
    decreases evs.len(),
{
    if evs.len() == 0 {
        t
    } else {
        spec_run(t.spec_apply(evs[0]), evs.skip(1))
    }
}

/// Retry-until-complete: however the link splits a transfer into timeouts
/// and partial byte counts, after any sequence of events the accounted count
/// equals the starting count plus the bytes those events moved, and the
/// transfer is complete exactly when that sum reaches the requested length.
/// A hard error aborts the driving loop between events, so the count it
/// reports upward is likewise the exact sum of the bytes moved before it.
pub proof fn lemma_retry_until_complete(t: Transfer, evs: Seq<TransferEvent>)
    requires
        t.wf(),
        t.done + spec_gained(evs) <= t.total,
    ensures
        spec_run(t, evs).total == t.total,
        spec_run(t, evs).done == t.done + spec_gained(evs),
        spec_run(t, evs).wf(),
        spec_run(t, evs).complete() <==> t.done + spec_gained(evs) == t.total,
    decreases evs.len(),
{
    if evs.len() > 0 {
        let t1 = t.spec_apply(evs[0]);
        assert(spec_gained(evs) == spec_gain(evs[0]) + spec_gained(evs.skip(1)));
        lemma_retry_until_complete(t1, evs.skip(1));
    }
}

} // verus!
