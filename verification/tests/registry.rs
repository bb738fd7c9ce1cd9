use jaeb::registry::{ListenerPolicy, MutableRegistry, DEAD_LETTER_EVENT, DEAD_LETTER_NAME};
use jaeb::types::{AsyncSubscriptionPolicy, IdAllocator, SubscriptionId, SyncSubscriptionPolicy};

const ORDER: u64 = 10;
const PAYMENT: u64 = 20;

fn sync_prio(p: i32) -> ListenerPolicy {
    ListenerPolicy::Sync(SyncSubscriptionPolicy::default().with_priority(p))
}

fn async_policy() -> ListenerPolicy {
    ListenerPolicy::Async(AsyncSubscriptionPolicy::default())
}

fn ids_of(v: &[jaeb::registry::ListenerEntry]) -> Vec<u64> {
    v.iter().map(|l| l.id.as_u64()).collect()
}

#[test]
fn ids_start_at_one_and_increase() {
    let mut ids = IdAllocator::new();
    assert!(ids.has_next());
    assert_eq!(ids.next_id().as_u64(), 1);
    assert_eq!(ids.next_id().as_u64(), 2);
    assert_eq!(ids.next_id().to_decimal(), "3");
}

#[test]
fn sync_lane_orders_by_priority_then_registration() {
    let mut ids = IdAllocator::new();
    let mut reg = MutableRegistry::new();
    let a = ids.next_id();
    let b = ids.next_id();
    let c = ids.next_id();
    let d = ids.next_id();
    reg.add_listener(ORDER, "Order", a, sync_prio(0), Some("a"), false);
    reg.add_listener(ORDER, "Order", b, sync_prio(5), Some("b"), false);
    reg.add_listener(ORDER, "Order", c, sync_prio(0), Some("c"), false);
    reg.add_listener(ORDER, "Order", d, async_policy(), Some("d"), false);
    let snap = reg.snapshot();
    let slot = snap.slot(ORDER).expect("slot for order events");
    assert_eq!(ids_of(&slot.sync_listeners), vec![b.as_u64(), a.as_u64(), c.as_u64()]);
    assert_eq!(ids_of(&slot.async_listeners), vec![d.as_u64()]);
    assert!(snap.slot(PAYMENT).is_none());
}

#[test]
fn unsubscribe_removes_and_second_removal_finds_nothing() {
    let mut ids = IdAllocator::new();
    let mut reg = MutableRegistry::new();
    let a = ids.next_id();
    let b = ids.next_id();
    reg.add_listener(ORDER, "Order", a, sync_prio(0), None, false);
    reg.add_listener(PAYMENT, "Payment", b, async_policy(), None, false);
    assert!(reg.has_registration(a));
    assert!(reg.remove_subscription(a));
    assert!(!reg.remove_subscription(a));
    assert!(!reg.has_registration(a));
    let snap = reg.snapshot();
    assert!(snap.slot(ORDER).is_none());
    assert!(snap.slot(PAYMENT).is_some());
}

#[test]
fn typed_middleware_keeps_slot_alive() {
    let mut ids = IdAllocator::new();
    let mut reg = MutableRegistry::new();
    let l = ids.next_id();
    let m = ids.next_id();
    reg.add_listener(ORDER, "Order", l, sync_prio(0), None, false);
    reg.add_typed_middleware(ORDER, "Order", m, true);
    assert!(reg.remove_subscription(l));
    let snap = reg.snapshot();
    let slot = snap.slot(ORDER).expect("middleware keeps the slot");
    assert!(slot.sync_listeners.is_empty());
    assert_eq!(slot.middlewares.len(), 1);
    assert!(slot.has_async_middleware);
}

#[test]
fn global_middlewares_in_registration_order() {
    let mut ids = IdAllocator::new();
    let mut reg = MutableRegistry::new();
    let g1 = ids.next_id();
    let g2 = ids.next_id();
    reg.add_global_middleware(g1, false);
    reg.add_global_middleware(g2, true);
    let snap = reg.snapshot();
    assert_eq!(snap.global_middlewares.len(), 2);
    assert_eq!(snap.global_middlewares[0].id, g1);
    assert_eq!(snap.global_middlewares[1].id, g2);
    assert!(snap.global_has_async_middleware);
}

#[test]
fn dead_letter_listeners_have_their_own_lane() {
    let mut ids = IdAllocator::new();
    let mut reg = MutableRegistry::new();
    let dl = ids.next_id();
    reg.add_listener(DEAD_LETTER_EVENT, DEAD_LETTER_NAME, dl, sync_prio(0), Some("dl"), false);
    let snap = reg.snapshot();
    assert!(snap.slot(DEAD_LETTER_EVENT).is_none());
    let lane = snap.dead_letter.as_ref().expect("dead-letter lane");
    assert_eq!(ids_of(&lane.listeners), vec![dl.as_u64()]);
}

#[test]
fn remove_once_only_touches_listeners() {
    let mut ids = IdAllocator::new();
    let mut reg = MutableRegistry::new();
    let l = ids.next_id();
    let m = ids.next_id();
    reg.add_listener(ORDER, "Order", l, sync_prio(0), None, true);
    reg.add_global_middleware(m, false);
    reg.remove_once(m);
    assert!(reg.has_registration(m));
    reg.remove_once(l);
    assert!(!reg.has_listener(l));
}

#[test]
fn stats_report_listeners_per_event() {
    let mut ids = IdAllocator::new();
    let mut reg = MutableRegistry::new();
    let a = ids.next_id();
    let b = ids.next_id();
    let c = ids.next_id();
    let dl = ids.next_id();
    reg.add_listener(PAYMENT, "Payment", a, sync_prio(0), Some("pay"), false);
    reg.add_listener(ORDER, "Order", b, async_policy(), Some("order"), false);
    reg.add_listener(ORDER, "Order", c, sync_prio(1), None, false);
    reg.add_listener(DEAD_LETTER_EVENT, DEAD_LETTER_NAME, dl, sync_prio(0), None, false);
    let stats = reg.stats(2, 1, false);
    assert_eq!(stats.total_subscriptions, 4);
    let listed: usize = stats.subscriptions_by_event.iter().map(|(_, infos)| infos.len()).sum();
    assert_eq!(listed, stats.total_subscriptions);
    assert_eq!(stats.in_flight_async, 2);
    assert_eq!(stats.dispatches_in_flight, 1);
    assert!(!stats.shutdown_called);
    let names: Vec<&str> = stats.subscriptions_by_event.iter().map(|(n, _)| *n).collect();
    assert_eq!(names, vec![DEAD_LETTER_NAME, "Payment", "Order"]);
    assert_eq!(stats.subscriptions_by_event[2].1.len(), 2);
    assert_eq!(stats.subscriptions_by_event[2].1[0].subscription_id, b);
    assert_eq!(stats.subscriptions_by_event[2].1[0].name, Some("order"));
    assert_eq!(stats.registered_event_types, vec!["Order", "Payment", DEAD_LETTER_NAME]);
}

#[test]
fn subscription_ids_compare_by_value() {
    let mut ids = IdAllocator::new();
    let a: SubscriptionId = ids.next_id();
    let b = ids.next_id();
    assert_ne!(a, b);
    assert_eq!(a, a);
}

#[test]
fn subscribe_then_unsubscribe_restores_registry() {
    let mut ids = IdAllocator::new();
    let mut reg = MutableRegistry::new();
    let a = ids.next_id();
    reg.add_listener(ORDER, "Order", a, sync_prio(0), None, false);
    let before = reg.stats(0, 0, false);
    let b = ids.next_id();
    reg.add_listener(PAYMENT, "Payment", b, async_policy(), None, false);
    assert!(reg.snapshot().slot(PAYMENT).is_some());
    assert!(reg.remove_subscription(b));
    let after = reg.stats(0, 0, false);
    assert_eq!(after.total_subscriptions, before.total_subscriptions);
    assert_eq!(after.registered_event_types, before.registered_event_types);
    assert_eq!(after.subscriptions_by_event, before.subscriptions_by_event);
    assert!(reg.snapshot().slot(PAYMENT).is_none());
    assert!(reg.snapshot().slot(ORDER).is_some());
}
