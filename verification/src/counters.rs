//! The two monotone request counters, "started" and "finished".
//!
//! Workers increment "started" when they begin a connection's pipeline and
//! "finished" when the response has been sent.  A pipeline increments
//! "started" strictly before "finished", so `finished <= started` holds at
//! every instant; both increment operations preserve that invariant.

use vstd::prelude::*;

verus! {

/// Monotonically increasing request counters; never decremented.
pub struct Counters {
    started: u64,
    finished: u64,
}

impl Counters {
    /// Number of pipelines that have begun.
    pub closed spec fn started(self) -> u64 {
        self.started
    }

    /// Number of pipelines that have completed successfully.
    pub closed spec fn finished(self) -> u64 {
        self.finished
    }

    /// The counter invariant: no pipeline finishes before it starts.
    pub open spec fn well_formed(self) -> bool {
        self.finished() <= self.started()
    }

    pub fn new() -> (c: Counters)
        ensures
            c.started() == 0,
            c.finished() == 0,
            c.well_formed(),
    {
        Counters { started: 0, finished: 0 }
    }

    /// Read the "started" counter.
    pub fn started_count(&self) -> (n: u64)
        ensures
            n == self.started(),
    {
        self.started
    }

    /// Read the "finished" counter.
    pub fn finished_count(&self) -> (n: u64)
        ensures
            n == self.finished(),
    {
        self.finished
    }

    /// Record that a worker has begun a connection's pipeline.
    pub fn inc_started(&mut self)
        requires
            old(self).well_formed(),
            old(self).started() < u64::MAX,
        ensures
            final(self).started() == old(self).started() + 1,
            final(self).finished() == old(self).finished(),
            final(self).well_formed(),
    {
        self.started = self.started + 1;
    }

    /// Record that a pipeline has completed; only called after its
    /// own `inc_started`, so a start without a finish is outstanding.
    pub fn inc_finished(&mut self)
        requires
            old(self).well_formed(),
            old(self).finished() < old(self).started(),
        ensures
            final(self).finished() == old(self).finished() + 1,
            final(self).started() == old(self).started(),
            final(self).well_formed(),
    {
        self.finished = self.finished + 1;
    }
}

/// At every observable instant the number of finished pipelines is at most
/// the number of started ones: `new` establishes `well_formed` and both
/// increments preserve it, so every reachable counter state satisfies this.
pub proof fn lemma_finished_le_started(c: Counters)
    requires
        c.well_formed(),
    ensures
        c.finished() <= c.started(),
{
}

/// The invariant the workers' shared lock enforces on the counter pair.
pub struct CountersWellFormed {}

impl vstd::rwlock::RwLockPredicate<Counters> for CountersWellFormed {
    open spec fn inv(self, c: Counters) -> bool {
        c.well_formed()
    }
}

/// The counter pair as the worker pool shares it: behind a
/// reader/writer lock whose invariant is [`Counters::well_formed`].
/// Whatever the workers' interleaving, every value that ever rests in
/// the lock is well formed, so `finished <= started` holds at every
/// observable instant, under any concurrency level.
pub struct SharedCounters {
    lock: vstd::rwlock::RwLock<Counters, CountersWellFormed>,
}

impl SharedCounters {
    pub fn new() -> SharedCounters {
        SharedCounters {
            lock: vstd::rwlock::RwLock::new(Counters::new(), Ghost(CountersWellFormed {  })),
        }
    }

    /// Record that a pipeline has begun.  The count saturates at the
    /// maximum rather than wrap.
    pub fn record_started(&self) {
        let (mut c, handle) = self.lock.acquire_write();
        if c.started_count() < u64::MAX {
            c.inc_started();
        }
        handle.release_write(c);
    }

    /// Record that a pipeline has completed.  A worker calls this only
    /// after its own `record_started`, so a start is outstanding; a call
    /// without one is ignored rather than break the invariant.
    pub fn record_finished(&self) {
        let (mut c, handle) = self.lock.acquire_write();
        if c.finished_count() < c.started_count() {
            c.inc_finished();
        }
        handle.release_write(c);
    }

    /// Observe the two counters, started first.  Any pair this returns
    /// satisfies `finished <= started`.
    pub fn snapshot(&self) -> (r: (u64, u64))
        ensures
            r.1 <= r.0,
    {
        let handle = self.lock.acquire_read();
        let c = handle.borrow();
        let started = c.started_count();
        let finished = c.finished_count();
        handle.release_read();
        (started, finished)
    }
}

} // verus!
