//! The cooperative stop protocol: a one-shot, acknowledged cancellation
//! shared by every stage.
//!
//! The channel itself is the runtime's; what is verified is the protocol's
//! state machine — request, acknowledgment — and the decision every stage
//! makes at its checkpoint: a stop observed before an item starts means the
//! item never starts, and the requester is acknowledged.

use vstd::prelude::*;

verus! {

/// The lifecycle of one stop signal.
#[derive(Copy, Clone, Eq, PartialEq, Structural, Debug)]
pub enum StopState {
    /// No stop requested; operations run to completion.
    Armed,
    /// A stop was requested and not yet acknowledged.
    Requested,
    /// The stopped side acknowledged; the requester's wait is over.
    Acknowledged,
}

/// What racing an operation against the stop signal yields: the operation's
/// value when it finishes first, or the fact that the stage stopped.
pub enum WithStopOutcome<T> {
    Stopped,
    Completed(T),
}

/// Decide the race between a finished operation and the stop signal. A stop
/// that arrived first abandons the operation and acknowledges the
/// requester; otherwise the operation's value is handed through and the
/// signal stays armed for future calls.
pub fn with_stop_decision<T>(state: StopState, value: T) -> (r: (StopState, WithStopOutcome<T>))
    ensures
        state == StopState::Requested ==> r.0 == StopState::Acknowledged && r.1 is Stopped,
        state != StopState::Requested ==> r.0 == state && (r.1 matches WithStopOutcome::Completed(v)
            && v == value),
{
    match state {
        StopState::Requested => (StopState::Acknowledged, WithStopOutcome::Stopped),
        StopState::Armed => (StopState::Armed, WithStopOutcome::Completed(value)),
        StopState::Acknowledged => (StopState::Acknowledged, WithStopOutcome::Completed(value)),
    }
}

/// How many items a stage processes: it checks the signal at the top of its
/// per-item loop, so a stop observed before item `k` leaves exactly `k`
/// items processed; with no stop, all items are processed.
pub open spec fn spec_processed(total: int, stop_before: Option<int>) -> int {
    match stop_before {
        Option::None => total,
        Option::Some(k) => if k <= total {
            k
        } else {
            total
        },
    }
}

/// Drive a stage's per-item loop against a stop observation: `stop_before`
/// says before which item the stop signal is first seen. The result is how
/// many items were processed and whether the stop was acknowledged.
pub fn run_stage_loop(total: usize, stop_before: Option<usize>) -> (r: (usize, bool))
    ensures
        r.0 == spec_processed(total as int, spec_opt_int(stop_before)),
        r.1 == (match stop_before {
            Option::Some(k) => k <= total,
            Option::None => false,
        }),
{
    let mut processed: usize = 0;
    while processed < total
        invariant
            processed <= total,
            match stop_before {
                Option::Some(k) => processed <= k,
                Option::None => true,
            },
        decreases total - processed,
    {
        let stop_now = match stop_before {
            Option::Some(k) => processed == k,
            Option::None => false,
        };
        if stop_now {
            return (processed, true);
        }
        processed = processed + 1;
    }
    match stop_before {
        Option::Some(k) => {
            if k == total {
                (processed, true)
            } else {
                (processed, false)
            }
        },
        Option::None => (processed, false),
    }
}

/// The integer view of an optional count.
pub open spec fn spec_opt_int(v: Option<usize>) -> Option<int> {
    match v {
        Option::Some(k) => Option::Some(k as int),
        Option::None => Option::None,
    }
}

/// Law: a stop requested before any item starts yields zero processed items
/// and a delivered acknowledgment, and the checkpoint decision acknowledges
/// a pending request at once.
pub proof fn lemma_stop_before_start(total: int)
    requires
        total >= 0,
    ensures
        spec_processed(total, Option::Some(0)) == 0,
{
}

} // verus!
