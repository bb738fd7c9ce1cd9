use jaeb::error::EventBusError;
use jaeb::tracker::{must_wait_for_tasks, shutdown_result, task_wait_after_drain, TaskAdmission, TaskLedger, TaskWait};

#[test]
fn tracked_tasks_get_fresh_ids_and_are_forgotten_when_done() {
    let mut ledger = TaskLedger::new(true);
    let a = ledger.begin();
    let b = ledger.begin();
    assert_eq!(a, TaskAdmission::Kept(1));
    assert_eq!(b, TaskAdmission::Kept(2));
    assert_eq!(ledger.in_flight(), 2);
    assert!(!ledger.finish(a));
    assert!(ledger.finish(b));
    assert_eq!(ledger.in_flight(), 0);
    assert!(ledger.abort_all().is_empty());
}

#[test]
fn untracked_tasks_are_counted_only() {
    let mut ledger = TaskLedger::new(false);
    let a = ledger.begin();
    assert_eq!(a, TaskAdmission::Untracked);
    assert_eq!(ledger.in_flight(), 1);
    assert!(ledger.finish(a));
}

#[test]
fn rejected_ledger_refuses_new_tasks() {
    let mut ledger = TaskLedger::new(true);
    let a = ledger.begin();
    ledger.reject_new();
    assert_eq!(ledger.begin(), TaskAdmission::Refused);
    assert_eq!(ledger.in_flight(), 1);
    assert_eq!(ledger.abort_all(), vec![1]);
    assert!(ledger.finish(a));
}

#[test]
fn shutdown_decisions() {
    assert!(!must_wait_for_tasks(0));
    assert!(must_wait_for_tasks(3));
    assert_eq!(task_wait_after_drain(true), TaskWait::Zero);
    assert_eq!(task_wait_after_drain(false), TaskWait::Remaining);
    assert_eq!(shutdown_result(false, false), Ok(()));
    assert_eq!(shutdown_result(true, false), Err(EventBusError::ShutdownTimeout));
    assert_eq!(shutdown_result(false, true), Err(EventBusError::ShutdownTimeout));
}

#[test]
fn tracker_does_not_leak_handles_for_fast_tasks() {
    let mut ledger = TaskLedger::new(true);
    let task = ledger.begin();
    assert!(ledger.finish(task));
    let timed_out = must_wait_for_tasks(ledger.in_flight());
    assert!(!timed_out, "tracker shutdown should complete without timeout");
    assert!(ledger.abort_all().is_empty(), "tracker task map should be empty after completion");
}

#[test]
fn shutdown_closes_once_and_later_calls_find_it_closed() {
    let open = 0u64;
    let closed = jaeb::dispatch::close_dispatches(open).expect("first shutdown closes");
    assert!(jaeb::dispatch::is_stopped(closed));
    assert_eq!(jaeb::dispatch::close_dispatches(closed), None);
    assert_eq!(shutdown_result(false, true), Err(EventBusError::ShutdownTimeout));
}
