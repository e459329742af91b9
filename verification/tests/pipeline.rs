//! The concurrency primitives: deduplication, pool admission, stop
//! protocol, and the streaming bridge.

use dashmap::DashSet;
use meteoroid::analyze::should_analyze;
use meteoroid::bridge::{ChunkQueue, StreamReader};
use meteoroid::pool::AnalysisPool;
use meteoroid::selector::GitRepo;
use meteoroid::stop::{run_stage_loop, with_stop_decision, StopState, WithStopOutcome};

#[test]
fn dedup_admits_an_identity_once() {
    let mut seen: DashSet<String> = DashSet::new();
    let repo = GitRepo("https://github.com/o/r".to_string());
    assert!(should_analyze(&mut seen, &repo, "/work/r"));
    assert!(!should_analyze(&mut seen, &repo, "/work/r"));
    // A different root under the same repository is a distinct identity.
    assert!(should_analyze(&mut seen, &repo, "/work/r/member"));
}

#[test]
fn pool_never_exceeds_its_cap_and_conserves_work() {
    let cap = 2;
    let total = 5u64;
    let mut pool = AnalysisPool::new(cap);
    let mut started = 0u64;
    let mut finished = 0u64;
    while finished < total {
        while started < total && pool.can_admit() {
            pool.start_task();
            started += 1;
            assert!(pool.in_flight <= cap);
        }
        pool.complete();
        finished += 1;
    }
    assert_eq!(pool.in_flight, 0);
    assert_eq!(pool.admitted, total);
    assert_eq!(pool.completed, total);
}

#[test]
fn stop_before_any_item_processes_nothing_and_acknowledges() {
    let (processed, acked) = run_stage_loop(10, Some(0));
    assert_eq!(processed, 0);
    assert!(acked);
}

#[test]
fn stop_midway_keeps_earlier_items() {
    assert_eq!(run_stage_loop(10, Some(4)), (4, true));
    assert_eq!(run_stage_loop(10, None), (10, false));
    assert_eq!(run_stage_loop(3, Some(7)), (3, false));
}

#[test]
fn with_stop_prefers_a_pending_request() {
    match with_stop_decision(StopState::Requested, 42) {
        (s, WithStopOutcome::Stopped) => assert_eq!(s, StopState::Acknowledged),
        _ => panic!("a pending stop must win the race"),
    }
    match with_stop_decision(StopState::Armed, 42) {
        (s, WithStopOutcome::Completed(v)) => {
            assert_eq!(s, StopState::Armed);
            assert_eq!(v, 42);
        },
        _ => panic!("an armed signal hands the value through"),
    }
}

#[test]
fn queue_refuses_chunks_beyond_its_capacity() {
    let mut q = ChunkQueue::new(2);
    assert!(q.try_push(vec![1]));
    assert!(q.try_push(vec![2, 3]));
    assert!(!q.try_push(vec![4]));
    // Draining frees the slot; order and content are kept.
    assert_eq!(q.pop_front(), Some(vec![1]));
    assert!(q.try_push(vec![4]));
    assert_eq!(q.pop_front(), Some(vec![2, 3]));
    assert_eq!(q.pop_front(), Some(vec![4]));
    assert_eq!(q.pop_front(), None);
}

#[test]
fn partial_pulls_retain_and_later_deliver_the_remainder() {
    let mut r = StreamReader::new();
    let out = r.read_step(Some(vec![1, 2, 3, 4, 5]), 2);
    assert_eq!(out, vec![1, 2]);
    let out = r.read_step(None, 2);
    assert_eq!(out, vec![3, 4]);
    let out = r.read_step(None, 2);
    assert_eq!(out, vec![5]);
    // End of stream once nothing is carried and the channel is closed.
    let out = r.read_step(None, 2);
    assert_eq!(out, Vec::<u8>::new());
}

#[test]
fn whole_chunks_pass_through_unsplit() {
    let mut r = StreamReader::new();
    let out = r.read_step(Some(vec![9, 9]), 10);
    assert_eq!(out, vec![9, 9]);
    assert_eq!(r.overflow, Vec::<u8>::new());
}
