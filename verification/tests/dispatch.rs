use jaeb::dispatch::{
    begin_dispatch, close_dispatches, dead_letter_from_failure, dispatches_in_flight, finish_dispatch, is_stopped,
    publish_route, should_fire_once, sync_listener_failed, LaneRun, ListenerFailure, MiddlewareDecision, MiddlewareRef,
    MiddlewareRun, PublishRoute,
};
use jaeb::duration::Duration;
use jaeb::error::EventBusError;
use jaeb::registry::{ListenerPolicy, MutableRegistry, DEAD_LETTER_EVENT, DEAD_LETTER_NAME};
use jaeb::types::{AsyncSubscriptionPolicy, IdAllocator, SubscriptionId, SyncSubscriptionPolicy};

const ORDER: u64 = 10;

fn sync_policy() -> ListenerPolicy {
    ListenerPolicy::Sync(SyncSubscriptionPolicy::default())
}

fn async_policy() -> ListenerPolicy {
    ListenerPolicy::Async(AsyncSubscriptionPolicy::default())
}

#[test]
fn dispatch_state_counts_and_closes() {
    let s0 = 0u64;
    assert!(!is_stopped(s0));
    let s1 = begin_dispatch(s0).expect("open bus admits");
    let s2 = begin_dispatch(s1).expect("open bus admits");
    assert_eq!(dispatches_in_flight(s2), 2);
    let (s3, last) = finish_dispatch(s2);
    assert!(!last);
    let closed = close_dispatches(s3).expect("first close");
    assert!(is_stopped(closed));
    assert_eq!(dispatches_in_flight(closed), 1);
    assert_eq!(begin_dispatch(closed), Err(EventBusError::Stopped));
    assert_eq!(close_dispatches(closed), None);
    let (s4, last) = finish_dispatch(closed);
    assert!(last);
    assert_eq!(dispatches_in_flight(s4), 0);
    assert!(is_stopped(s4));
}

#[test]
fn routes_follow_what_listens() {
    let mut ids = IdAllocator::new();
    let mut reg = MutableRegistry::new();
    assert_eq!(publish_route(&reg.snapshot(), None), PublishRoute::Skip);
    reg.add_listener(ORDER, "Order", ids.next_id(), sync_policy(), None, false);
    let snap = reg.snapshot();
    assert_eq!(publish_route(&snap, snap.slot(ORDER)), PublishRoute::SyncOnly);
    reg.add_listener(ORDER, "Order", ids.next_id(), async_policy(), None, false);
    let snap = reg.snapshot();
    assert_eq!(publish_route(&snap, snap.slot(ORDER)), PublishRoute::Full);
    let mut reg2 = MutableRegistry::new();
    reg2.add_global_middleware(ids.next_id(), true);
    assert_eq!(publish_route(&reg2.snapshot(), None), PublishRoute::Full);
}

#[test]
fn first_rejection_wins() {
    let mut ids = IdAllocator::new();
    let mut reg = MutableRegistry::new();
    let g = ids.next_id();
    let t1 = ids.next_id();
    let t2 = ids.next_id();
    reg.add_global_middleware(g, false);
    reg.add_typed_middleware(ORDER, "Order", t1, false);
    reg.add_typed_middleware(ORDER, "Order", t2, false);
    let snap = reg.snapshot();
    let mut run = MiddlewareRun::new(&snap, snap.slot(ORDER));
    match run.next() {
        Some(MiddlewareRef::Global(m)) => assert_eq!(m.id, g),
        other => panic!("expected the global middleware first, got {:?}", other),
    }
    run.record(MiddlewareDecision::Continue);
    match run.next() {
        Some(MiddlewareRef::Typed(m)) => assert_eq!(m.id, t1),
        other => panic!("expected the first typed middleware, got {:?}", other),
    }
    run.record(MiddlewareDecision::Reject("no orders today".to_string()));
    assert!(run.next().is_none());
    assert_eq!(run.outcome(), Err(EventBusError::MiddlewareRejected("no orders today".to_string())));
}

#[test]
fn all_continue_lets_the_event_through() {
    let mut ids = IdAllocator::new();
    let mut reg = MutableRegistry::new();
    reg.add_global_middleware(ids.next_id(), false);
    let snap = reg.snapshot();
    let mut run = MiddlewareRun::new(&snap, None);
    assert!(run.next().is_some());
    run.record(MiddlewareDecision::Continue);
    assert!(run.next().is_none());
    assert_eq!(run.outcome(), Ok(()));
    assert_eq!(
        run.panicked("bad"),
        Err(EventBusError::MiddlewareRejected("middleware panicked: bad".to_string()))
    );
}

#[test]
fn fire_once_rule() {
    assert!(should_fire_once(false, Some(false)));
    assert!(should_fire_once(true, Some(true)));
    assert!(!should_fire_once(true, Some(false)));
    assert!(should_fire_once(true, None));
}

#[test]
fn lane_run_visits_async_then_sync_and_collects_once_listeners() {
    let mut ids = IdAllocator::new();
    let mut reg = MutableRegistry::new();
    let a_once = ids.next_id();
    let s_plain = ids.next_id();
    let s_once = ids.next_id();
    reg.add_listener(ORDER, "Order", a_once, async_policy(), None, true);
    reg.add_listener(ORDER, "Order", s_plain, sync_policy(), None, false);
    reg.add_listener(ORDER, "Order", s_once, sync_policy(), None, true);
    let snap = reg.snapshot();
    let slot = snap.slot(ORDER).expect("slot");
    let mut run = LaneRun::new(slot, true);
    let mut visited: Vec<(SubscriptionId, bool)> = Vec::new();
    while let Some((l, is_async)) = run.next() {
        visited.push((l.id, is_async));
        // the async fire-once listener loses its claim; the others fire
        let claimed = if l.id == a_once { Some(false) } else { Some(true) };
        let fires = run.fires(claimed);
        run.record(fires);
    }
    assert_eq!(visited, vec![(a_once, true), (s_plain, false), (s_once, false)]);
    assert_eq!(run.once_ran(), vec![s_once]);
}

#[test]
fn lane_run_skips_async_lane_when_not_spawning() {
    let mut ids = IdAllocator::new();
    let mut reg = MutableRegistry::new();
    let a = ids.next_id();
    let s = ids.next_id();
    reg.add_listener(ORDER, "Order", a, async_policy(), None, false);
    reg.add_listener(ORDER, "Order", s, sync_policy(), None, true);
    let snap = reg.snapshot();
    let mut run = LaneRun::new(snap.slot(ORDER).expect("slot"), false);
    let (first, is_async) = run.next().expect("one listener");
    assert_eq!(first.id, s);
    assert!(!is_async);
    // a failed spawn or a lost claim counts as not run
    run.record(false);
    assert!(run.next().is_none());
    assert!(run.once_ran().is_empty());
}

#[test]
fn dead_letter_lane_run() {
    let mut ids = IdAllocator::new();
    let mut reg = MutableRegistry::new();
    let d = ids.next_id();
    reg.add_listener(DEAD_LETTER_EVENT, DEAD_LETTER_NAME, d, sync_policy(), None, true);
    let snap = reg.snapshot();
    let mut run = LaneRun::for_dead_letters(snap.dead_letter.as_ref().expect("lane"));
    let (l, is_async) = run.next().expect("listener");
    assert_eq!(l.id, d);
    assert!(!is_async);
    let fires = run.fires(None);
    run.record(fires);
    assert_eq!(run.once_ran(), vec![d]);
}

#[test]
fn sync_failure_becomes_dead_letter() {
    let mut ids = IdAllocator::new();
    let mut reg = MutableRegistry::new();
    let id = ids.next_id();
    reg.add_listener(ORDER, "Order", id, sync_policy(), Some("audit"), false);
    let snap = reg.snapshot();
    let listener = snap.slot(ORDER).expect("slot").sync_listeners[0];
    let failure = sync_listener_failed(&listener, "Order", ORDER, 42u32, "boom".to_string());
    assert_eq!(failure.attempts, 1);
    assert!(failure.dead_letter);
    let at = Duration::from_secs(100);
    let dl = dead_letter_from_failure(failure, at).expect("dead letter");
    assert_eq!(dl.event_name, "Order");
    assert_eq!(dl.subscription_id, id);
    assert_eq!(dl.attempts, 1);
    assert_eq!(dl.error, "boom");
    assert_eq!(dl.event, 42);
    assert_eq!(dl.failed_at, at);
    assert_eq!(dl.handler_name, Some("audit"));
}

#[test]
fn failing_dead_letter_listener_emits_nothing() {
    let mut ids = IdAllocator::new();
    let failure = ListenerFailure {
        event_name: DEAD_LETTER_NAME,
        event_type: DEAD_LETTER_EVENT,
        subscription_id: ids.next_id(),
        attempts: 1,
        error: "again".to_string(),
        dead_letter: true,
        event: (),
        handler_name: None,
    };
    assert!(dead_letter_from_failure(failure, Duration::zero()).is_none());
}

#[test]
fn disabled_dead_letter_emits_nothing() {
    let mut ids = IdAllocator::new();
    let failure = ListenerFailure {
        event_name: "Order",
        event_type: ORDER,
        subscription_id: ids.next_id(),
        attempts: 3,
        error: "late".to_string(),
        dead_letter: false,
        event: (),
        handler_name: None,
    };
    assert!(dead_letter_from_failure(failure, Duration::zero()).is_none());
}

#[test]
fn sync_only_route_meets_only_sync_middlewares() {
    let mut ids = IdAllocator::new();
    let mut reg = MutableRegistry::new();
    reg.add_global_middleware(ids.next_id(), false);
    reg.add_typed_middleware(ORDER, "Order", ids.next_id(), false);
    reg.add_listener(ORDER, "Order", ids.next_id(), sync_policy(), None, false);
    let snap = reg.snapshot();
    let slot = snap.slot(ORDER);
    assert_eq!(publish_route(&snap, slot), PublishRoute::SyncOnly);
    let mut run = MiddlewareRun::new(&snap, slot);
    let mut seen = 0;
    while let Some(m) = run.next() {
        let is_async = match m {
            MiddlewareRef::Global(g) => g.is_async,
            MiddlewareRef::Typed(t) => t.is_async,
        };
        assert!(!is_async);
        seen += 1;
        run.record(MiddlewareDecision::Continue);
    }
    assert_eq!(seen, 2);
}

#[test]
fn unsubscribe_twice_then_after_shutdown() {
    let mut ids = IdAllocator::new();
    let mut reg = MutableRegistry::new();
    let a = ids.next_id();
    reg.add_listener(ORDER, "Order", a, sync_policy(), None, false);
    let open = 0u64;
    assert_eq!(reg.unsubscribe(open, a), Ok(true));
    assert_eq!(reg.unsubscribe(open, a), Ok(false));
    let b = ids.next_id();
    reg.add_listener(ORDER, "Order", b, sync_policy(), None, false);
    let closed = close_dispatches(open).expect("first close");
    assert_eq!(reg.unsubscribe(closed, b), Err(EventBusError::Stopped));
    assert!(reg.has_registration(b));
}

#[test]
fn fire_once_flag_lets_one_claim_through() {
    let mut flag = false;
    let mut fired = 0;
    for _ in 0..5 {
        let claimed = !flag;
        flag = true;
        if should_fire_once(true, Some(claimed)) {
            fired += 1;
        }
    }
    assert_eq!(fired, 1);
}
