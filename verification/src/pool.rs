//! The analysis pool's admission accounting: an unordered set of in-flight
//! tasks capped at a fixed concurrency, admitting a new task only when a
//! slot is free and retiring tasks in completion order.
//!
//! The pool's tasks run outside the library; what is verified is the
//! bookkeeping that enforces the cap and the conservation of work.

use vstd::prelude::*;

verus! {

/// The admission state: the cap, how many tasks are in flight, and how
/// many were admitted and completed overall.
pub struct AnalysisPool {
    pub max_concurrent: usize,
    pub in_flight: usize,
    pub admitted: u64,
    pub completed: u64,
}

impl AnalysisPool {
    /// The pool's invariant: never more than the cap in flight, and every
    /// admitted task is either in flight or completed.
    pub open spec fn inv(self) -> bool {
        &&& self.in_flight <= self.max_concurrent
        &&& self.admitted == self.completed + self.in_flight
    }

    /// A fresh pool with the given cap and no work.
    pub fn new(max_concurrent: usize) -> (r: Self)
        ensures
            r.inv(),
            r.max_concurrent == max_concurrent,
            r.in_flight == 0,
            r.admitted == 0,
            r.completed == 0,
    {
        AnalysisPool { max_concurrent, in_flight: 0, admitted: 0, completed: 0 }
    }

    /// Whether a slot is free.
    pub fn can_admit(&self) -> (r: bool)
        ensures
            r == (self.in_flight < self.max_concurrent),
    {
        self.in_flight < self.max_concurrent
    }

    /// Start one task in a free slot.
    pub fn start_task(&mut self)
        requires
            old(self).inv(),
            old(self).in_flight < old(self).max_concurrent,
            old(self).admitted < u64::MAX,
        ensures
            final(self).inv(),
            final(self).max_concurrent == old(self).max_concurrent,
            final(self).in_flight == old(self).in_flight + 1,
            final(self).admitted == old(self).admitted + 1,
            final(self).completed == old(self).completed,
    {
        self.in_flight = self.in_flight + 1;
        self.admitted = self.admitted + 1;
    }

    /// Retire one in-flight task, whichever finished first.
    pub fn complete(&mut self)
        requires
            old(self).inv(),
            old(self).in_flight > 0,
        ensures
            final(self).inv(),
            final(self).max_concurrent == old(self).max_concurrent,
            final(self).in_flight == old(self).in_flight - 1,
            final(self).admitted == old(self).admitted,
            final(self).completed == old(self).completed + 1,
    {
        self.in_flight = self.in_flight - 1;
        self.completed = self.completed + 1;
    }
}

/// How many of the trace's events are admissions.
pub open spec fn admissions_of(trace: Seq<bool>) -> int
    decreases trace.len(),
{
    if trace.len() == 0 {
        0
    } else {
        admissions_of(trace.drop_last()) + if trace.last() {
            1int
        } else {
            0int
        }
    }
}

/// The pool state a trace of events drives to, starting idle: `true` is an
/// admission, `false` a completion. An admission at the cap or a completion
/// with nothing in flight is not a possible trace — the scheduler admits
/// only into a free slot and waits otherwise.
pub open spec fn pool_fold(cap: int, trace: Seq<bool>) -> Option<(int, int)>
    decreases trace.len(),
{
    if trace.len() == 0 {
        Option::Some((0, 0))
    } else {
        match pool_fold(cap, trace.drop_last()) {
            Option::None => Option::None,
            Option::Some((in_flight, completed)) => {
                if trace.last() {
                    if in_flight < cap {
                        Option::Some((in_flight + 1, completed))
                    } else {
                        Option::None
                    }
                } else {
                    if in_flight > 0 {
                        Option::Some((in_flight - 1, completed + 1))
                    } else {
                        Option::None
                    }
                }
            },
        }
    }
}

/// Law: concurrency is bounded and work is conserved. Along any possible
/// trace of admissions and completions under cap N, the number in flight
/// never exceeds N, in-flight plus completed equals the admissions so far,
/// and once the pool drains, completions equal admissions — with M > N
/// admitted items, all M complete without the cap ever being exceeded.
pub proof fn lemma_pool_bounded(cap: int, trace: Seq<bool>)
    requires
        cap >= 0,
        pool_fold(cap, trace) is Some,
    ensures
        ({
            let (in_flight, completed) = pool_fold(cap, trace)->Some_0;
            &&& in_flight <= cap
            &&& 0 <= in_flight
            &&& in_flight + completed == admissions_of(trace)
            &&& (in_flight == 0 ==> completed == admissions_of(trace))
        }),
    decreases trace.len(),
{
    if trace.len() > 0 {
        assert(pool_fold(cap, trace.drop_last()) is Some);
        lemma_pool_bounded(cap, trace.drop_last());
        assert(admissions_of(trace) == admissions_of(trace.drop_last()) + if trace.last() {
            1int
        } else {
            0int
        });
    }
}

} // verus!
