//! The mutable registry of listeners and middlewares, with the snapshots
//! that dispatch reads and the statistics it reports.
//!
//! Event types are identified by a `u64` key chosen by the caller (one key
//! per event type); [`DEAD_LETTER_EVENT`] is the key of dead letters.
use vstd::prelude::*;

use crate::order::{sort_strs, sorted_strs};
use crate::types::{AsyncSubscriptionPolicy, HandlerInfo, SubscriptionId, SyncSubscriptionPolicy};

verus! {

/// The event key of dead-letter records.
pub const DEAD_LETTER_EVENT: u64 = 0;

/// The subscription policy of a listener; its variant also decides the lane
/// (sync or async) the listener runs in.
#[derive(Debug, Clone, Copy, PartialEq, Eq, Structural)]
pub enum ListenerPolicy {
    /// An async listener.
    Async(AsyncSubscriptionPolicy),
    /// A sync listener.
    Sync(SyncSubscriptionPolicy),
}

/// A registered listener.
#[derive(Debug, Clone, Copy)]
pub struct ListenerEntry {
    /// The subscription identifier.
    pub id: SubscriptionId,
    /// Tie-breaker for ordering; equal to the identifier's value.
    pub registration_order: u64,
    /// Key of the event type the listener receives.
    pub event: u64,
    /// Subscription policy; decides the lane.
    pub policy: ListenerPolicy,
    /// Human-readable name, if any.
    pub name: Option<&'static str>,
    /// Whether the listener is removed after its first delivery.
    pub once: bool,
}

/// A middleware scoped to one event type.
#[derive(Debug, Clone, Copy)]
pub struct TypedMiddlewareSlot {
    /// The subscription identifier.
    pub id: SubscriptionId,
    /// Key of the event type it intercepts.
    pub event: u64,
    /// Whether it decides asynchronously.
    pub is_async: bool,
}

/// A middleware that intercepts every event type.
#[derive(Debug, Clone, Copy)]
pub struct GlobalMiddleware {
    /// The subscription identifier.
    pub id: SubscriptionId,
    /// Whether it decides asynchronously.
    pub is_async: bool,
}

/// One registration, in the order registrations were made.
#[derive(Debug, Clone, Copy)]
pub enum Registration {
    /// A listener.
    Listener(ListenerEntry),
    /// A typed middleware.
    TypedMiddleware(TypedMiddlewareSlot),
    /// A global middleware.
    GlobalMiddleware(GlobalMiddleware),
}

/// The name recorded for an event type when its slot was created.
#[derive(Debug, Clone, Copy)]
pub struct SlotName {
    /// Key of the event type.
    pub event: u64,
    /// Name of the event type.
    pub name: &'static str,
}

impl Registration {
    /// The identifier of the registration.
    pub open spec fn id_spec(self) -> SubscriptionId {
        match self {
            Registration::Listener(l) => l.id,
            Registration::TypedMiddleware(t) => t.id,
            Registration::GlobalMiddleware(g) => g.id,
        }
    }

    /// The identifier of the registration.
    pub fn id(&self) -> (r: SubscriptionId)
        ensures
            r == self.id_spec(),
    {
        match self {
            Registration::Listener(l) => l.id,
            Registration::TypedMiddleware(t) => t.id,
            Registration::GlobalMiddleware(g) => g.id,
        }
    }
}

/// Whether `r` keeps the slot of event `e` alive: a listener of `e` other
/// than a dead-letter listener, or a middleware typed on `e`.
pub open spec fn keeps_slot(r: Registration, e: u64) -> bool {
    match r {
        Registration::Listener(l) => l.event == e && e != DEAD_LETTER_EVENT,
        Registration::TypedMiddleware(t) => t.event == e,
        Registration::GlobalMiddleware(_) => false,
    }
}

/// Whether some registration keeps the slot of `e` alive.
pub open spec fn live(regs: Seq<Registration>, e: u64) -> bool {
    exists|i: int| 0 <= i < regs.len() && #[trigger] keeps_slot(regs[i], e)
}

/// Whether a slot for `e` is recorded.
pub open spec fn has_slot(slots: Seq<SlotName>, e: u64) -> bool {
    exists|k: int| 0 <= k < slots.len() && (#[trigger] slots[k]).event == e
}

/// Whether some registration carries identifier `id`.
pub open spec fn has_id(regs: Seq<Registration>, id: SubscriptionId) -> bool {
    exists|i: int| 0 <= i < regs.len() && (#[trigger] regs[i]).id_spec() == id
}

/// The registrations without the one(s) carrying `id`, in order.
pub open spec fn without_id(regs: Seq<Registration>, id: SubscriptionId) -> Seq<Registration>
    decreases regs.len(),
{
    if regs.len() == 0 {
        regs
    } else {
        let rest = without_id(regs.drop_last(), id);
        if regs.last().id_spec() == id {
            rest
        } else {
            rest.push(regs.last())
        }
    }
}

/// The recorded slots whose event is still kept alive by `regs`, in order.
pub open spec fn live_slots(slots: Seq<SlotName>, regs: Seq<Registration>) -> Seq<SlotName>
    decreases slots.len(),
{
    if slots.len() == 0 {
        slots
    } else {
        let rest = live_slots(slots.drop_last(), regs);
        if live(regs, slots.last().event) {
            rest.push(slots.last())
        } else {
            rest
        }
    }
}

/// The listeners of event `e` (dead-letter listeners included when `e` is
/// the dead-letter key), in registration order.
pub open spec fn listeners_for(regs: Seq<Registration>, e: u64) -> Seq<ListenerEntry>
    decreases regs.len(),
{
    if regs.len() == 0 {
        Seq::empty()
    } else {
        let rest = listeners_for(regs.drop_last(), e);
        if regs.last() is Listener && regs.last()->Listener_0.event == e {
            rest.push(regs.last()->Listener_0)
        } else {
            rest
        }
    }
}

/// The listeners of every event type, in registration order.
pub open spec fn all_listeners(regs: Seq<Registration>) -> Seq<ListenerEntry>
    decreases regs.len(),
{
    if regs.len() == 0 {
        Seq::empty()
    } else {
        let rest = all_listeners(regs.drop_last());
        if regs.last() is Listener {
            rest.push(regs.last()->Listener_0)
        } else {
            rest
        }
    }
}

/// The middlewares typed on event `e`, in registration order.
pub open spec fn typed_for(regs: Seq<Registration>, e: u64) -> Seq<TypedMiddlewareSlot>
    decreases regs.len(),
{
    if regs.len() == 0 {
        Seq::empty()
    } else {
        let rest = typed_for(regs.drop_last(), e);
        if regs.last() is TypedMiddleware && regs.last()->TypedMiddleware_0.event == e {
            rest.push(regs.last()->TypedMiddleware_0)
        } else {
            rest
        }
    }
}

/// The global middlewares, in registration order.
pub open spec fn globals(regs: Seq<Registration>) -> Seq<GlobalMiddleware>
    decreases regs.len(),
{
    if regs.len() == 0 {
        Seq::empty()
    } else {
        let rest = globals(regs.drop_last());
        if regs.last() is GlobalMiddleware {
            rest.push(regs.last()->GlobalMiddleware_0)
        } else {
            rest
        }
    }
}

/// Every registration kept by [`without_id`] is one of those given and
/// does not carry `id`.
pub proof fn lemma_without_id_subset(regs: Seq<Registration>, id: SubscriptionId)
    ensures
        without_id(regs, id).len() <= regs.len(),
        forall|k: int|
            0 <= k < without_id(regs, id).len() ==> exists|j: int|
                0 <= j < regs.len() && regs[j] == #[trigger] without_id(regs, id)[k],
        forall|k: int|
            0 <= k < without_id(regs, id).len() ==> (#[trigger] without_id(regs, id)[k]).id_spec()
                != id,
    decreases regs.len(),
{
    if regs.len() > 0 {
        let init = regs.drop_last();
        lemma_without_id_subset(init, id);
        let rest = without_id(init, id);
        let out = without_id(regs, id);
        assert forall|k: int| 0 <= k < out.len() implies exists|j: int|
            0 <= j < regs.len() && regs[j] == #[trigger] out[k] by {
            if k < rest.len() {
                assert(out[k] == rest[k]);
                let j = choose|j: int| 0 <= j < init.len() && init[j] == rest[k];
                assert(regs[j] == out[k]);
            } else {
                assert(regs[regs.len() - 1] == out[k]);
            }
        }
        assert forall|k: int| 0 <= k < out.len() implies (#[trigger] out[k]).id_spec() != id by {
            if k < rest.len() {
                assert(out[k] == rest[k]);
            }
        }
    }
}

/// [`without_id`] keeps every registration that does not carry `id`.
pub proof fn lemma_without_id_keeps(regs: Seq<Registration>, id: SubscriptionId)
    ensures
        forall|j: int|
            0 <= j < regs.len() && (#[trigger] regs[j]).id_spec() != id ==> exists|k: int|
                0 <= k < without_id(regs, id).len() && without_id(regs, id)[k] == regs[j],
    decreases regs.len(),
{
    if regs.len() > 0 {
        let init = regs.drop_last();
        lemma_without_id_keeps(init, id);
        let rest = without_id(init, id);
        let out = without_id(regs, id);
        assert forall|j: int| 0 <= j < regs.len() && (#[trigger] regs[j]).id_spec() != id implies exists|
            k: int,
        | 0 <= k < out.len() && out[k] == regs[j] by {
            if j < init.len() {
                assert(init[j] == regs[j]);
                let k = choose|k: int| 0 <= k < rest.len() && rest[k] == init[j];
                assert(out[k] == rest[k]);
            } else {
                assert(out[out.len() - 1] == regs[j]);
            }
        }
    }
}

/// [`without_id`] keeps identifiers distinct, and shortens the sequence
/// exactly when some registration carries `id`.
pub proof fn lemma_without_id_distinct(regs: Seq<Registration>, id: SubscriptionId)
    requires
        forall|i: int, j: int| 0 <= i < j < regs.len() ==> regs[i].id_spec() != regs[j].id_spec(),
    ensures
        forall|i: int, j: int|
            0 <= i < j < without_id(regs, id).len() ==> without_id(regs, id)[i].id_spec()
                != without_id(regs, id)[j].id_spec(),
        has_id(regs, id) <==> without_id(regs, id).len() < regs.len(),
    decreases regs.len(),
{
    if regs.len() > 0 {
        let init = regs.drop_last();
        assert(forall|i: int, j: int|
            0 <= i < j < init.len() ==> init[i].id_spec() != init[j].id_spec());
        lemma_without_id_distinct(init, id);
        lemma_without_id_subset(init, id);
        let rest = without_id(init, id);
        let out = without_id(regs, id);
        assert forall|i: int, j: int| 0 <= i < j < out.len() implies out[i].id_spec()
            != out[j].id_spec() by {
            if j < rest.len() {
                assert(out[i] == rest[i] && out[j] == rest[j]);
            } else {
                assert(out[i] == rest[i]);
                let ii = choose|ii: int| 0 <= ii < init.len() && init[ii] == rest[i];
                assert(regs[ii] == init[ii]);
            }
        }
        if has_id(regs, id) {
            let w = choose|w: int| 0 <= w < regs.len() && regs[w].id_spec() == id;
            if w < init.len() {
                assert(init[w] == regs[w]);
            }
        }
        if has_id(init, id) {
            let w = choose|w: int| 0 <= w < init.len() && init[w].id_spec() == id;
            assert(regs[w] == init[w]);
        }
    }
}

/// Properties of [`live_slots`].
pub proof fn lemma_live_slots(slots: Seq<SlotName>, regs: Seq<Registration>)
    ensures
        forall|e: u64|
            has_slot(live_slots(slots, regs), e) <==> (has_slot(slots, e) && live(regs, e)),
        (forall|i: int, j: int| 0 <= i < j < slots.len() ==> slots[i].event != slots[j].event)
            ==> (forall|i: int, j: int|
            0 <= i < j < live_slots(slots, regs).len() ==> live_slots(slots, regs)[i].event
                != live_slots(slots, regs)[j].event),
        forall|k: int|
            0 <= k < live_slots(slots, regs).len() ==> exists|j: int|
                0 <= j < slots.len() && slots[j] == #[trigger] live_slots(slots, regs)[k],
    decreases slots.len(),
{
    if slots.len() > 0 {
        let init = slots.drop_last();
        lemma_live_slots(init, regs);
        let rest = live_slots(init, regs);
        let out = live_slots(slots, regs);
        assert forall|k: int| 0 <= k < out.len() implies exists|j: int|
            0 <= j < slots.len() && slots[j] == #[trigger] out[k] by {
            if k < rest.len() {
                assert(out[k] == rest[k]);
                let j = choose|j: int| 0 <= j < init.len() && init[j] == rest[k];
                assert(slots[j] == out[k]);
            } else {
                assert(slots[slots.len() - 1] == out[k]);
            }
        }
        assert forall|e: u64| has_slot(out, e) <==> (has_slot(slots, e) && live(regs, e)) by {
            if has_slot(out, e) {
                let k = choose|k: int| 0 <= k < out.len() && out[k].event == e;
                if k < rest.len() {
                    assert(out[k] == rest[k]);
                    assert(has_slot(rest, e));
                    let kk = choose|kk: int| 0 <= kk < init.len() && init[kk].event == e;
                    assert(slots[kk] == init[kk]);
                } else {
                    assert(slots[slots.len() - 1] == out[k]);
                }
            }
            if has_slot(slots, e) && live(regs, e) {
                let k = choose|k: int| 0 <= k < slots.len() && slots[k].event == e;
                if k < init.len() {
                    assert(init[k] == slots[k]);
                    assert(has_slot(rest, e));
                    let kk = choose|kk: int| 0 <= kk < rest.len() && rest[kk].event == e;
                    assert(out[kk] == rest[kk]);
                } else {
                    assert(out[out.len() - 1] == slots[k]);
                }
            }
        }
        if forall|i: int, j: int| 0 <= i < j < slots.len() ==> slots[i].event != slots[j].event {
            assert forall|i: int, j: int| 0 <= i < j < out.len() implies out[i].event
                != out[j].event by {
                assert(forall|i: int, j: int|
                    0 <= i < j < init.len() ==> init[i].event != init[j].event);
                if j < rest.len() {
                    assert(out[i] == rest[i] && out[j] == rest[j]);
                } else {
                    assert(out[i] == rest[i]);
                    let ii = choose|ii: int| 0 <= ii < init.len() && init[ii] == rest[i];
                    assert(slots[ii] == init[ii]);
                }
            }
        }
    }
}

/// The mutable registry of listeners and middlewares.
pub struct MutableRegistry {
    regs: Vec<Registration>,
    slots: Vec<SlotName>,
}

impl MutableRegistry {
    /// All registrations, in the order they were made.
    pub closed spec fn regs(self) -> Seq<Registration> {
        self.regs@
    }

    /// The event types with a slot, with the names recorded when each slot
    /// was created, in creation order.
    pub closed spec fn slots(self) -> Seq<SlotName> {
        self.slots@
    }

    /// The registry's invariant.
    pub closed spec fn wf(self) -> bool {
        &&& forall|i: int, j: int|
            0 <= i < j < self.regs@.len() ==> self.regs@[i].id_spec() != self.regs@[j].id_spec()
        &&& forall|i: int|
            0 <= i < self.regs@.len() && (#[trigger] self.regs@[i]) is Listener ==> {
                let l = self.regs@[i]->Listener_0;
                &&& l.registration_order == l.id@
                &&& l.event == DEAD_LETTER_EVENT ==> l.policy is Sync
            }
        &&& forall|i: int, j: int|
            0 <= i < j < self.slots@.len() ==> self.slots@[i].event != self.slots@[j].event
        &&& forall|e: u64|
            #![trigger live(self.regs@, e)]
            #![trigger has_slot(self.slots@, e)]
            live(self.regs@, e) <==> has_slot(self.slots@, e)
    }

    /// An empty registry.
    pub fn new() -> (r: MutableRegistry)
        ensures
            r.wf(),
            r.regs() == Seq::<Registration>::empty(),
            r.slots() == Seq::<SlotName>::empty(),
    {
        MutableRegistry { regs: Vec::new(), slots: Vec::new() }
    }

    /// Whether some registration carries `id`.
    pub fn has_registration(&self, id: SubscriptionId) -> (r: bool)
        ensures
            r == has_id(self.regs(), id),
    {
        let mut i: usize = 0;
        while i < self.regs.len()
            invariant
                i <= self.regs@.len(),
                forall|k: int| 0 <= k < i ==> (#[trigger] self.regs@[k]).id_spec() != id,
            decreases self.regs@.len() - i,
        {
            if self.regs[i].id() == id {
                return true;
            }
            i = i + 1;
        }
        false
    }

    /// Whether some listener registration carries `id`.
    pub fn has_listener(&self, id: SubscriptionId) -> (r: bool)
        ensures
            r == exists|i: int|
                0 <= i < self.regs().len() && (#[trigger] self.regs()[i]) is Listener
                    && self.regs()[i].id_spec() == id,
    {
        let mut i: usize = 0;
        while i < self.regs.len()
            invariant
                i <= self.regs@.len(),
                forall|k: int|
                    0 <= k < i ==> !((#[trigger] self.regs@[k]) is Listener && self.regs@[k].id_spec()
                        == id),
            decreases self.regs@.len() - i,
        {
            match self.regs[i] {
                Registration::Listener(l) => {
                    if l.id == id {
                        return true;
                    }
                },
                _ => {},
            }
            i = i + 1;
        }
        false
    }

    fn slot_recorded(&self, event: u64) -> (r: bool)
        ensures
            r == has_slot(self.slots@, event),
    {
        let mut i: usize = 0;
        while i < self.slots.len()
            invariant
                i <= self.slots@.len(),
                forall|k: int| 0 <= k < i ==> (#[trigger] self.slots@[k]).event != event,
            decreases self.slots@.len() - i,
        {
            if self.slots[i].event == event {
                return true;
            }
            i = i + 1;
        }
        false
    }

    fn regs_keep_alive(regs: &Vec<Registration>, event: u64) -> (r: bool)
        ensures
            r == live(regs@, event),
    {
        let mut i: usize = 0;
        while i < regs.len()
            invariant
                i <= regs@.len(),
                forall|k: int| 0 <= k < i ==> !keeps_slot(#[trigger] regs@[k], event),
            decreases regs@.len() - i,
        {
            let keeps = match regs[i] {
                Registration::Listener(l) => l.event == event && event != DEAD_LETTER_EVENT,
                Registration::TypedMiddleware(t) => t.event == event,
                Registration::GlobalMiddleware(_) => false,
            };
            if keeps {
                proof {
                    assert(keeps_slot(regs@[i as int], event));
                }
                return true;
            }
            i = i + 1;
        }
        false
    }

    /// Records the slot of `event` under `name` if none is recorded.
    fn ensure_slot(&mut self, event: u64, name: &'static str)
        ensures
            final(self).regs == old(self).regs,
            final(self).slots@ == (if has_slot(old(self).slots@, event) {
                old(self).slots@
            } else {
                old(self).slots@.push(SlotName { event, name })
            }),
    {
        if !self.slot_recorded(event) {
            self.slots.push(SlotName { event, name });
        }
    }

    /// Registers a listener of `event` (named `event_name`) under `id`.
    pub fn add_listener(
        &mut self,
        event: u64,
        event_name: &'static str,
        id: SubscriptionId,
        policy: ListenerPolicy,
        name: Option<&'static str>,
        once: bool,
    )
        requires
            old(self).wf(),
            !has_id(old(self).regs(), id),
            event == DEAD_LETTER_EVENT ==> policy is Sync,
        ensures
            final(self).wf(),
            final(self).regs() == old(self).regs().push(
                Registration::Listener(
                    ListenerEntry { id, registration_order: id@, event, policy, name, once },
                ),
            ),
            final(self).slots() == (if event == DEAD_LETTER_EVENT || has_slot(
                old(self).slots(),
                event,
            ) {
                old(self).slots()
            } else {
                old(self).slots().push(SlotName { event, name: event_name })
            }),
    {
        let ghost old_regs = self.regs@;
        let ghost old_slots = self.slots@;
        if event != DEAD_LETTER_EVENT {
            self.ensure_slot(event, event_name);
        }
        let entry = ListenerEntry { id, registration_order: id.as_u64(), event, policy, name, once };
        self.regs.push(Registration::Listener(entry));
        proof {
            let new_reg = Registration::Listener(entry);
            assert(self.regs@ == old_regs.push(new_reg));
            assert forall|e: u64| live(self.regs@, e) <==> has_slot(self.slots@, e) by {
                if live(self.regs@, e) {
                    let i = choose|i: int| 0 <= i < self.regs@.len() && keeps_slot(self.regs@[i], e);
                    if i < old_regs.len() {
                        assert(old_regs[i] == self.regs@[i]);
                        assert(live(old_regs, e));
                        let k = choose|k: int| 0 <= k < old_slots.len() && old_slots[k].event == e;
                        assert(self.slots@[k] == old_slots[k]);
                    } else {
                        assert(e == event);
                        if !has_slot(old_slots, e) {
                            assert(self.slots@[self.slots@.len() - 1].event == e);
                        } else {
                            let k = choose|k: int| 0 <= k < old_slots.len() && old_slots[k].event == e;
                            assert(self.slots@[k] == old_slots[k]);
                        }
                    }
                }
                if has_slot(self.slots@, e) {
                    let k = choose|k: int| 0 <= k < self.slots@.len() && self.slots@[k].event == e;
                    if k < old_slots.len() {
                        assert(old_slots[k] == self.slots@[k]);
                        assert(has_slot(old_slots, e));
                        assert(live(old_regs, e));
                        let i = choose|i: int| 0 <= i < old_regs.len() && keeps_slot(old_regs[i], e);
                        assert(self.regs@[i] == old_regs[i]);
                    } else {
                        assert(keeps_slot(self.regs@[self.regs@.len() - 1], e));
                    }
                }
            }
            assert forall|i: int, j: int| 0 <= i < j < self.regs@.len() implies self.regs@[i].id_spec()
                != self.regs@[j].id_spec() by {
                if j == self.regs@.len() - 1 {
                    assert(self.regs@[i] == old_regs[i]);
                }
            }
            assert forall|i: int, j: int| 0 <= i < j < self.slots@.len() implies self.slots@[i].event
                != self.slots@[j].event by {
                if j == old_slots.len() {
                    assert(self.slots@[i] == old_slots[i]);
                }
            }
        }
    }

    /// Registers a middleware typed on `event` (named `event_name`) under `id`.
    pub fn add_typed_middleware(
        &mut self,
        event: u64,
        event_name: &'static str,
        id: SubscriptionId,
        is_async: bool,
    )
        requires
            old(self).wf(),
            !has_id(old(self).regs(), id),
        ensures
            final(self).wf(),
            final(self).regs() == old(self).regs().push(
                Registration::TypedMiddleware(TypedMiddlewareSlot { id, event, is_async }),
            ),
            final(self).slots() == (if has_slot(old(self).slots(), event) {
                old(self).slots()
            } else {
                old(self).slots().push(SlotName { event, name: event_name })
            }),
    {
        let ghost old_regs = self.regs@;
        let ghost old_slots = self.slots@;
        self.ensure_slot(event, event_name);
        let slot = TypedMiddlewareSlot { id, event, is_async };
        self.regs.push(Registration::TypedMiddleware(slot));
        proof {
            assert forall|e: u64| live(self.regs@, e) <==> has_slot(self.slots@, e) by {
                if live(self.regs@, e) {
                    let i = choose|i: int| 0 <= i < self.regs@.len() && keeps_slot(self.regs@[i], e);
                    if i < old_regs.len() {
                        assert(old_regs[i] == self.regs@[i]);
                        assert(live(old_regs, e));
                        let k = choose|k: int| 0 <= k < old_slots.len() && old_slots[k].event == e;
                        assert(self.slots@[k] == old_slots[k]);
                    } else {
                        if !has_slot(old_slots, e) {
                            assert(self.slots@[self.slots@.len() - 1].event == e);
                        } else {
                            let k = choose|k: int| 0 <= k < old_slots.len() && old_slots[k].event == e;
                            assert(self.slots@[k] == old_slots[k]);
                        }
                    }
                }
                if has_slot(self.slots@, e) {
                    let k = choose|k: int| 0 <= k < self.slots@.len() && self.slots@[k].event == e;
                    if k < old_slots.len() {
                        assert(old_slots[k] == self.slots@[k]);
                        assert(has_slot(old_slots, e));
                        assert(live(old_regs, e));
                        let i = choose|i: int| 0 <= i < old_regs.len() && keeps_slot(old_regs[i], e);
                        assert(self.regs@[i] == old_regs[i]);
                    } else {
                        assert(keeps_slot(self.regs@[self.regs@.len() - 1], e));
                    }
                }
            }
            assert forall|i: int, j: int| 0 <= i < j < self.regs@.len() implies self.regs@[i].id_spec()
                != self.regs@[j].id_spec() by {
                if j == self.regs@.len() - 1 {
                    assert(self.regs@[i] == old_regs[i]);
                }
            }
            assert forall|i: int, j: int| 0 <= i < j < self.slots@.len() implies self.slots@[i].event
                != self.slots@[j].event by {
                if j == old_slots.len() {
                    assert(self.slots@[i] == old_slots[i]);
                }
            }
            assert forall|i: int|
                0 <= i < self.regs@.len() && (#[trigger] self.regs@[i]) is Listener implies {
                let l = self.regs@[i]->Listener_0;
                &&& l.registration_order == l.id@
                &&& l.event == DEAD_LETTER_EVENT ==> l.policy is Sync
            } by {
                assert(self.regs@[i] == old_regs[i]);
            }
        }
    }

    /// Registers a global middleware under `id`.
    pub fn add_global_middleware(&mut self, id: SubscriptionId, is_async: bool)
        requires
            old(self).wf(),
            !has_id(old(self).regs(), id),
        ensures
            final(self).wf(),
            final(self).regs() == old(self).regs().push(
                Registration::GlobalMiddleware(GlobalMiddleware { id, is_async }),
            ),
            final(self).slots() == old(self).slots(),
    {
        let ghost old_regs = self.regs@;
        self.regs.push(Registration::GlobalMiddleware(GlobalMiddleware { id, is_async }));
        proof {
            assert forall|e: u64| live(self.regs@, e) <==> live(old_regs, e) by {
                if live(self.regs@, e) {
                    let i = choose|i: int| 0 <= i < self.regs@.len() && keeps_slot(self.regs@[i], e);
                    assert(old_regs[i] == self.regs@[i]);
                }
                if live(old_regs, e) {
                    let i = choose|i: int| 0 <= i < old_regs.len() && keeps_slot(old_regs[i], e);
                    assert(self.regs@[i] == old_regs[i]);
                }
            }
            assert forall|i: int, j: int| 0 <= i < j < self.regs@.len() implies self.regs@[i].id_spec()
                != self.regs@[j].id_spec() by {
                if j == self.regs@.len() - 1 {
                    assert(self.regs@[i] == old_regs[i]);
                }
            }
            assert forall|i: int|
                0 <= i < self.regs@.len() && (#[trigger] self.regs@[i]) is Listener implies {
                let l = self.regs@[i]->Listener_0;
                &&& l.registration_order == l.id@
                &&& l.event == DEAD_LETTER_EVENT ==> l.policy is Sync
            } by {
                assert(self.regs@[i] == old_regs[i]);
            }
        }
    }

    /// Removes the registration carrying `id`, listener or middleware, and
    /// the slots left with nothing. Returns whether one was removed.
    pub fn remove_subscription(&mut self, id: SubscriptionId) -> (r: bool)
        requires
            old(self).wf(),
        ensures
            final(self).wf(),
            r == has_id(old(self).regs(), id),
            final(self).regs() == without_id(old(self).regs(), id),
            final(self).slots() == live_slots(old(self).slots(), final(self).regs()),
    {
        let ghost old_regs = self.regs@;
        let ghost old_slots = self.slots@;
        let mut kept: Vec<Registration> = Vec::new();
        let mut i: usize = 0;
        while i < self.regs.len()
            invariant
                i <= self.regs@.len(),
                self.regs@ == old_regs,
                kept@ == without_id(old_regs.take(i as int), id),
            decreases self.regs@.len() - i,
        {
            proof {
                assert(old_regs.take(i + 1).drop_last() =~= old_regs.take(i as int));
            }
            let reg = self.regs[i];
            if reg.id() != id {
                kept.push(reg);
            }
            i = i + 1;
        }
        proof {
            assert(old_regs.take(old_regs.len() as int) =~= old_regs);
            lemma_without_id_subset(old_regs, id);
            lemma_without_id_keeps(old_regs, id);
            lemma_without_id_distinct(old_regs, id);
        }
        let removed = kept.len() < self.regs.len();
        let mut live_kept: Vec<SlotName> = Vec::new();
        let mut k: usize = 0;
        while k < self.slots.len()
            invariant
                k <= self.slots@.len(),
                self.slots@ == old_slots,
                kept@ == without_id(old_regs, id),
                live_kept@ == live_slots(old_slots.take(k as int), kept@),
            decreases self.slots@.len() - k,
        {
            proof {
                assert(old_slots.take(k + 1).drop_last() =~= old_slots.take(k as int));
            }
            let slot = self.slots[k];
            if Self::regs_keep_alive(&kept, slot.event) {
                live_kept.push(slot);
            }
            k = k + 1;
        }
        proof {
            assert(old_slots.take(old_slots.len() as int) =~= old_slots);
            lemma_live_slots(old_slots, kept@);
            let new_regs = kept@;
            assert forall|e: u64| live(new_regs, e) implies live(old_regs, e) by {
                let i = choose|i: int| 0 <= i < new_regs.len() && keeps_slot(new_regs[i], e);
                let j = choose|j: int| 0 <= j < old_regs.len() && old_regs[j] == new_regs[i];
            }
            assert forall|i: int|
                0 <= i < new_regs.len() && (#[trigger] new_regs[i]) is Listener implies {
                let l = new_regs[i]->Listener_0;
                &&& l.registration_order == l.id@
                &&& l.event == DEAD_LETTER_EVENT ==> l.policy is Sync
            } by {
                let j = choose|j: int| 0 <= j < old_regs.len() && old_regs[j] == new_regs[i];
            }
        }
        self.regs = kept;
        self.slots = live_kept;
        removed
    }

    /// Removes the listener carrying `id` after its single delivery; does
    /// nothing where `id` is not a listener.
    pub fn remove_once(&mut self, id: SubscriptionId)
        requires
            old(self).wf(),
        ensures
            final(self).wf(),
            (exists|i: int|
                0 <= i < old(self).regs().len() && (#[trigger] old(self).regs()[i]) is Listener
                    && old(self).regs()[i].id_spec() == id) ==> {
                &&& final(self).regs() == without_id(old(self).regs(), id)
                &&& final(self).slots() == live_slots(old(self).slots(), final(self).regs())
            },
            !(exists|i: int|
                0 <= i < old(self).regs().len() && (#[trigger] old(self).regs()[i]) is Listener
                    && old(self).regs()[i].id_spec() == id) ==> *final(self) == *old(self),
    {
        if self.has_listener(id) {
            self.remove_subscription(id);
        }
    }
}


/// The priority of a listener: its sync priority, or 0 for async ones.
pub open spec fn priority_of(l: ListenerEntry) -> i32 {
    match l.policy {
        ListenerPolicy::Sync(p) => p.priority,
        ListenerPolicy::Async(_) => 0,
    }
}

/// Whether `a` runs before `b` in a lane: by priority (higher first) then
/// registration order when `by_priority`, by registration order otherwise.
pub open spec fn precedes(a: ListenerEntry, b: ListenerEntry, by_priority: bool) -> bool {
    if by_priority {
        priority_of(a) > priority_of(b) || (priority_of(a) == priority_of(b)
            && a.registration_order < b.registration_order)
    } else {
        a.registration_order < b.registration_order
    }
}

/// Every listener of `s` runs before every later one.
pub open spec fn in_lane_order(s: Seq<ListenerEntry>, by_priority: bool) -> bool {
    forall|i: int, j: int| 0 <= i < j < s.len() ==> precedes(s[i], s[j], by_priority)
}

/// `out` holds the listeners of `input`, each as often, in lane order.
pub open spec fn lane_matches(
    out: Seq<ListenerEntry>,
    input: Seq<ListenerEntry>,
    by_priority: bool,
) -> bool {
    in_lane_order(out, by_priority) && out.to_multiset() == input.to_multiset()
}

/// No two listeners of `s` share a registration order.
pub open spec fn distinct_orders(s: Seq<ListenerEntry>) -> bool {
    forall|i: int, j: int| 0 <= i < j < s.len() ==> s[i].registration_order != s[j].registration_order
}

/// The listeners of event `e` in the sync lane (`sync`) or the async lane,
/// in registration order.
pub open spec fn lane_for(regs: Seq<Registration>, e: u64, sync: bool) -> Seq<ListenerEntry>
    decreases regs.len(),
{
    if regs.len() == 0 {
        Seq::empty()
    } else {
        let rest = lane_for(regs.drop_last(), e, sync);
        if regs.last() is Listener && regs.last()->Listener_0.event == e && (
        regs.last()->Listener_0.policy is Sync) == sync {
            rest.push(regs.last()->Listener_0)
        } else {
            rest
        }
    }
}

/// The listeners that the slot of event `e` runs in one lane: none for the
/// dead-letter key, whose listeners have a slot of their own.
pub open spec fn slot_lane(regs: Seq<Registration>, e: u64, sync: bool) -> Seq<ListenerEntry> {
    if e == DEAD_LETTER_EVENT {
        Seq::empty()
    } else {
        lane_for(regs, e, sync)
    }
}

/// Whether some middleware of `s` decides asynchronously.
pub open spec fn any_async_typed(s: Seq<TypedMiddlewareSlot>) -> bool {
    exists|i: int| 0 <= i < s.len() && (#[trigger] s[i]).is_async
}

/// Whether some middleware of `s` decides asynchronously.
pub open spec fn any_async_global(s: Seq<GlobalMiddleware>) -> bool {
    exists|i: int| 0 <= i < s.len() && (#[trigger] s[i]).is_async
}

/// Every listener of a lane is a listener registration of `regs`, and the
/// lane's registration orders are distinct where the registrations' are.
pub proof fn lemma_lane_from_regs(regs: Seq<Registration>, e: u64, sync: bool)
    ensures
        forall|k: int|
            0 <= k < lane_for(regs, e, sync).len() ==> exists|i: int|
                0 <= i < regs.len() && regs[i] == Registration::Listener(
                    #[trigger] lane_for(regs, e, sync)[k],
                ),
        forall|k: int|
            0 <= k < lane_for(regs, e, sync).len() ==> (#[trigger] lane_for(regs, e, sync)[k]).event
                == e && (lane_for(regs, e, sync)[k].policy is Sync) == sync,
        (forall|i: int, j: int|
            0 <= i < j < regs.len() ==> regs[i].id_spec() != regs[j].id_spec()) && (forall|i: int|
            0 <= i < regs.len() && (#[trigger] regs[i]) is Listener
                ==> regs[i]->Listener_0.registration_order == regs[i]->Listener_0.id@)
            ==> distinct_orders(lane_for(regs, e, sync)),
    decreases regs.len(),
{
    broadcast use crate::types::lemma_id_view_injective;

    if regs.len() > 0 {
        let init = regs.drop_last();
        lemma_lane_from_regs(init, e, sync);
        let rest = lane_for(init, e, sync);
        let out = lane_for(regs, e, sync);
        assert forall|k: int| 0 <= k < out.len() implies exists|i: int|
            0 <= i < regs.len() && regs[i] == Registration::Listener(#[trigger] out[k]) by {
            if k < rest.len() {
                assert(out[k] == rest[k]);
                let i = choose|i: int|
                    0 <= i < init.len() && init[i] == Registration::Listener(rest[k]);
                assert(regs[i] == init[i]);
            } else {
                assert(regs[regs.len() - 1] == Registration::Listener(out[k]));
            }
        }
        assert forall|k: int| 0 <= k < out.len() implies (#[trigger] out[k]).event == e && (
        out[k].policy is Sync) == sync by {
            if k < rest.len() {
                assert(out[k] == rest[k]);
            }
        }
        if (forall|i: int, j: int|
            0 <= i < j < regs.len() ==> regs[i].id_spec() != regs[j].id_spec()) && (forall|i: int|
            0 <= i < regs.len() && (#[trigger] regs[i]) is Listener
                ==> regs[i]->Listener_0.registration_order == regs[i]->Listener_0.id@) {
            assert(forall|i: int, j: int|
                0 <= i < j < init.len() ==> init[i].id_spec() != init[j].id_spec());
            assert(forall|i: int|
                0 <= i < init.len() && (#[trigger] init[i]) is Listener
                    ==> init[i]->Listener_0.registration_order == init[i]->Listener_0.id@) by {
                assert forall|i: int|
                    0 <= i < init.len() && (#[trigger] init[i]) is Listener implies init[i]->Listener_0.registration_order
                    == init[i]->Listener_0.id@ by {
                    assert(regs[i] == init[i]);
                }
            }
            assert forall|a: int, b: int| 0 <= a < b < out.len() implies out[a].registration_order
                != out[b].registration_order by {
                if b < rest.len() {
                    assert(out[a] == rest[a] && out[b] == rest[b]);
                } else {
                    assert(out[a] == rest[a]);
                    let i = choose|i: int|
                        0 <= i < init.len() && init[i] == Registration::Listener(rest[a]);
                    assert(regs[i] == init[i]);
                    let last = regs.len() - 1;
                    assert(regs[last] == Registration::Listener(out[b]));
                    assert(regs[i].id_spec() != regs[last].id_spec());
                }
            }
        }
    }
}

/// Orders `input` into lane order.
fn sort_lane(input: &Vec<ListenerEntry>, by_priority: bool) -> (out: Vec<ListenerEntry>)
    requires
        distinct_orders(input@),
    ensures
        lane_matches(out@, input@, by_priority),
{
    broadcast use vstd::seq_lib::to_multiset_build, vstd::seq_lib::to_multiset_insert;

    let mut out: Vec<ListenerEntry> = Vec::new();
    let mut i: usize = 0;
    proof {
        assert(input@.take(0) =~= Seq::<ListenerEntry>::empty());
        assert(out@ =~= Seq::<ListenerEntry>::empty());
    }
    while i < input.len()
        invariant
            i <= input@.len(),
            distinct_orders(input@),
            in_lane_order(out@, by_priority),
            out@.to_multiset() == input@.take(i as int).to_multiset(),
            forall|k: int|
                0 <= k < out@.len() ==> exists|j: int|
                    0 <= j < i && input@[j] == #[trigger] out@[k],
        decreases input@.len() - i,
    {
        let x = input[i];
        let mut p: usize = 0;
        let mut found = false;
        while !found && p < out.len()
            invariant
                p <= out@.len(),
                forall|k: int| 0 <= k < p ==> !precedes(x, #[trigger] out@[k], by_priority),
                found ==> p < out@.len() && precedes(x, out@[p as int], by_priority),
            decreases out@.len() - p + (if found { 0int } else { 1int }),
        {
            let y = out[p];
            let before = if by_priority {
                let px = match x.policy {
                    ListenerPolicy::Sync(sp) => sp.priority,
                    ListenerPolicy::Async(_) => 0,
                };
                let py = match y.policy {
                    ListenerPolicy::Sync(sp) => sp.priority,
                    ListenerPolicy::Async(_) => 0,
                };
                px > py || (px == py && x.registration_order < y.registration_order)
            } else {
                x.registration_order < y.registration_order
            };
            if before {
                found = true;
            } else {
                p = p + 1;
            }
        }
        let ghost old_out = out@;
        proof {
            assert forall|k: int| 0 <= k < old_out.len() implies (#[trigger] old_out[k]).registration_order
                != x.registration_order by {
                let j = choose|j: int| 0 <= j < i && input@[j] == old_out[k];
            }
            if p < old_out.len() {
                assert(precedes(x, old_out[p as int], by_priority));
            }
        }
        out.insert(p, x);
        proof {
            let n = out@;
            assert(n == old_out.insert(p as int, x));
            vstd::seq_lib::to_multiset_insert(old_out, p as int, x);
            assert(n.to_multiset() == old_out.to_multiset().insert(x));
            assert(input@.take(i + 1) =~= input@.take(i as int).push(x));
            vstd::seq_lib::to_multiset_build(input@.take(i as int), x);
            assert(input@.take(i + 1).to_multiset() == input@.take(i as int).to_multiset().insert(x));
            assert forall|a: int, b: int| 0 <= a < b < n.len() implies precedes(
                n[a],
                n[b],
                by_priority,
            ) by {
                if b < p {
                    assert(n[a] == old_out[a] && n[b] == old_out[b]);
                } else if b == p {
                    assert(n[a] == old_out[a]);
                    assert(!precedes(x, old_out[a], by_priority));
                    assert(old_out[a].registration_order != x.registration_order);
                } else if a == p {
                    assert(n[b] == old_out[b - 1]);
                    if b - 1 > p {
                        assert(precedes(old_out[p as int], old_out[b - 1], by_priority));
                    }
                } else if a < p {
                    assert(n[a] == old_out[a] && n[b] == old_out[b - 1]);
                } else {
                    assert(n[a] == old_out[a - 1] && n[b] == old_out[b - 1]);
                }
            }
            assert(input@.take(i + 1) =~= input@.take(i as int).push(x));
            assert forall|k: int| 0 <= k < n.len() implies exists|j: int|
                0 <= j < i + 1 && input@[j] == #[trigger] n[k] by {
                if k < p {
                    assert(n[k] == old_out[k]);
                    let j = choose|j: int| 0 <= j < i && input@[j] == old_out[k];
                } else if k == p {
                    assert(input@[i as int] == n[k]);
                } else {
                    assert(n[k] == old_out[k - 1]);
                    let j = choose|j: int| 0 <= j < i && input@[j] == old_out[k - 1];
                }
            }
        }
        i = i + 1;
    }
    proof {
        assert(input@.take(input@.len() as int) =~= input@);
    }
    out
}

/// The snapshot that dispatch reads for one event type.
pub struct TypeSlot {
    /// Key of the event type.
    pub event: u64,
    /// Sync listeners: higher priority first, then registration order.
    pub sync_listeners: Vec<ListenerEntry>,
    /// Async listeners in registration order.
    pub async_listeners: Vec<ListenerEntry>,
    /// Typed middlewares in registration order.
    pub middlewares: Vec<TypedMiddlewareSlot>,
    /// Whether some typed middleware decides asynchronously.
    pub has_async_middleware: bool,
}

/// The snapshot of the dead-letter listeners.
pub struct DeadLetterSlot {
    /// Dead-letter listeners: higher priority first, then registration order.
    pub listeners: Vec<ListenerEntry>,
}

/// A point-in-time view of the registry that dispatch reads.
pub struct RegistrySnapshot {
    /// One slot per event type with a listener or typed middleware.
    pub by_type: Vec<TypeSlot>,
    /// The dead-letter listeners, if there are any.
    pub dead_letter: Option<DeadLetterSlot>,
    /// Global middlewares in registration order.
    pub global_middlewares: Vec<GlobalMiddleware>,
    /// Whether some global middleware decides asynchronously.
    pub global_has_async_middleware: bool,
}

/// Whether `slot` is the snapshot of event `e` for the registrations `regs`.
pub open spec fn slot_matches(regs: Seq<Registration>, e: u64, slot: TypeSlot) -> bool {
    &&& slot.event == e
    &&& lane_matches(slot.sync_listeners@, slot_lane(regs, e, true), true)
    &&& lane_matches(slot.async_listeners@, slot_lane(regs, e, false), false)
    &&& slot.middlewares@ == typed_for(regs, e)
    &&& slot.has_async_middleware == any_async_typed(typed_for(regs, e))
}

impl RegistrySnapshot {
    /// The slot of event `e`, if it has one.
    pub open spec fn slot_spec(self, e: u64) -> Option<TypeSlot> {
        if exists|k: int| 0 <= k < self.by_type@.len() && (#[trigger] self.by_type@[k]).event == e {
            Some(
                self.by_type@[choose|k: int|
                    0 <= k < self.by_type@.len() && (#[trigger] self.by_type@[k]).event == e],
            )
        } else {
            None
        }
    }

    /// The slot of event `e`, if it has one.
    pub fn slot(&self, e: u64) -> (r: Option<&TypeSlot>)
        requires
            forall|i: int, j: int|
                0 <= i < j < self.by_type@.len() ==> self.by_type@[i].event != self.by_type@[j].event,
        ensures
            r matches Some(s) ==> self.slot_spec(e) == Some(*s),
            r is None ==> self.slot_spec(e) is None,
    {
        let mut k: usize = 0;
        while k < self.by_type.len()
            invariant
                k <= self.by_type@.len(),
                forall|j: int| 0 <= j < k ==> (#[trigger] self.by_type@[j]).event != e,
                forall|i: int, j: int|
                    0 <= i < j < self.by_type@.len() ==> self.by_type@[i].event
                        != self.by_type@[j].event,
            decreases self.by_type@.len() - k,
        {
            if self.by_type[k].event == e {
                proof {
                    let c = choose|c: int|
                        0 <= c < self.by_type@.len() && (#[trigger] self.by_type@[c]).event == e;
                    if c < k {
                        assert(self.by_type@[c].event != self.by_type@[k as int].event);
                    } else if c > k {
                        assert(self.by_type@[k as int].event != self.by_type@[c].event);
                    }
                }
                return Some(&self.by_type[k]);
            }
            k = k + 1;
        }
        None
    }
}

impl MutableRegistry {
    fn collect_lane(&self, e: u64, sync: bool) -> (r: Vec<ListenerEntry>)
        ensures
            r@ == lane_for(self.regs@, e, sync),
    {
        let mut out: Vec<ListenerEntry> = Vec::new();
        let mut i: usize = 0;
        while i < self.regs.len()
            invariant
                i <= self.regs@.len(),
                out@ == lane_for(self.regs@.take(i as int), e, sync),
            decreases self.regs@.len() - i,
        {
            proof {
                assert(self.regs@.take(i + 1).drop_last() =~= self.regs@.take(i as int));
            }
            match self.regs[i] {
                Registration::Listener(l) => {
                    let is_sync = match l.policy {
                        ListenerPolicy::Sync(_) => true,
                        ListenerPolicy::Async(_) => false,
                    };
                    if l.event == e && is_sync == sync {
                        out.push(l);
                    }
                },
                _ => {},
            }
            i = i + 1;
        }
        proof {
            assert(self.regs@.take(self.regs@.len() as int) =~= self.regs@);
        }
        out
    }

    fn collect_typed(&self, e: u64) -> (r: (Vec<TypedMiddlewareSlot>, bool))
        ensures
            r.0@ == typed_for(self.regs@, e),
            r.1 == any_async_typed(r.0@),
    {
        let mut out: Vec<TypedMiddlewareSlot> = Vec::new();
        let mut has_async = false;
        let mut i: usize = 0;
        while i < self.regs.len()
            invariant
                i <= self.regs@.len(),
                out@ == typed_for(self.regs@.take(i as int), e),
                has_async == any_async_typed(out@),
            decreases self.regs@.len() - i,
        {
            proof {
                assert(self.regs@.take(i + 1).drop_last() =~= self.regs@.take(i as int));
            }
            match self.regs[i] {
                Registration::TypedMiddleware(t) => {
                    if t.event == e {
                        let ghost before = out@;
                        out.push(t);
                        proof {
                            if has_async {
                                let w = choose|w: int| 0 <= w < before.len() && (#[trigger] before[w]).is_async;
                                assert(out@[w] == before[w]);
                            }
                            if t.is_async {
                                assert(out@[out@.len() - 1].is_async);
                            }
                            if !has_async && !t.is_async {
                                assert forall|w: int| 0 <= w < out@.len() implies !(#[trigger] out@[w]).is_async by {
                                    if w < before.len() {
                                        assert(out@[w] == before[w]);
                                    }
                                }
                            }
                        }
                        has_async = has_async || t.is_async;
                    }
                },
                _ => {},
            }
            i = i + 1;
        }
        proof {
            assert(self.regs@.take(self.regs@.len() as int) =~= self.regs@);
        }
        (out, has_async)
    }

    fn collect_globals(&self) -> (r: (Vec<GlobalMiddleware>, bool))
        ensures
            r.0@ == globals(self.regs@),
            r.1 == any_async_global(r.0@),
    {
        let mut out: Vec<GlobalMiddleware> = Vec::new();
        let mut has_async = false;
        let mut i: usize = 0;
        while i < self.regs.len()
            invariant
                i <= self.regs@.len(),
                out@ == globals(self.regs@.take(i as int)),
                has_async == any_async_global(out@),
            decreases self.regs@.len() - i,
        {
            proof {
                assert(self.regs@.take(i + 1).drop_last() =~= self.regs@.take(i as int));
            }
            match self.regs[i] {
                Registration::GlobalMiddleware(g) => {
                    let ghost before = out@;
                    out.push(g);
                    proof {
                        if has_async {
                            let w = choose|w: int| 0 <= w < before.len() && (#[trigger] before[w]).is_async;
                            assert(out@[w] == before[w]);
                        }
                        if g.is_async {
                            assert(out@[out@.len() - 1].is_async);
                        }
                        if !has_async && !g.is_async {
                            assert forall|w: int| 0 <= w < out@.len() implies !(#[trigger] out@[w]).is_async by {
                                if w < before.len() {
                                    assert(out@[w] == before[w]);
                                }
                            }
                        }
                    }
                    has_async = has_async || g.is_async;
                },
                _ => {},
            }
            i = i + 1;
        }
        proof {
            assert(self.regs@.take(self.regs@.len() as int) =~= self.regs@);
        }
        (out, has_async)
    }

    fn lane_snapshot(&self, e: u64, sync: bool) -> (r: Vec<ListenerEntry>)
        requires
            self.wf(),
        ensures
            lane_matches(r@, lane_for(self.regs@, e, sync), sync),
    {
        let lane = self.collect_lane(e, sync);
        proof {
            lemma_lane_from_regs(self.regs@, e, sync);
        }
        sort_lane(&lane, sync)
    }

    fn type_slot(&self, e: u64) -> (r: TypeSlot)
        requires
            self.wf(),
        ensures
            slot_matches(self.regs@, e, r),
    {
        let (middlewares, has_async_middleware) = self.collect_typed(e);
        if e == DEAD_LETTER_EVENT {
            TypeSlot {
                event: e,
                sync_listeners: Vec::new(),
                async_listeners: Vec::new(),
                middlewares,
                has_async_middleware,
            }
        } else {
            TypeSlot {
                event: e,
                sync_listeners: self.lane_snapshot(e, true),
                async_listeners: self.lane_snapshot(e, false),
                middlewares,
                has_async_middleware,
            }
        }
    }

    /// A point-in-time snapshot for dispatch: per event type its sync lane
    /// (higher priority first, then registration order), its async lane
    /// (registration order) and its typed middlewares (registration order);
    /// the dead-letter lane; and the global middlewares.
    pub fn snapshot(&self) -> (r: RegistrySnapshot)
        requires
            self.wf(),
        ensures
            r.by_type@.len() == self.slots().len(),
            forall|k: int|
                0 <= k < r.by_type@.len() ==> slot_matches(
                    self.regs(),
                    self.slots()[k].event,
                    #[trigger] r.by_type@[k],
                ),
            forall|i: int, j: int|
                0 <= i < j < r.by_type@.len() ==> r.by_type@[i].event != r.by_type@[j].event,
            forall|e: u64| (#[trigger] r.slot_spec(e)) is Some <==> live(self.regs(), e),
            forall|e: u64|
                #[trigger] r.slot_spec(e) matches Some(s) ==> slot_matches(self.regs(), e, s),
            r.dead_letter is None <==> lane_for(self.regs(), DEAD_LETTER_EVENT, true).len() == 0,
            r.dead_letter matches Some(d) ==> lane_matches(
                d.listeners@,
                lane_for(self.regs(), DEAD_LETTER_EVENT, true),
                true,
            ),
            r.global_middlewares@ == globals(self.regs()),
            r.global_has_async_middleware == any_async_global(globals(self.regs())),
    {
        let mut by_type: Vec<TypeSlot> = Vec::new();
        let mut k: usize = 0;
        while k < self.slots.len()
            invariant
                self.wf(),
                k <= self.slots@.len(),
                by_type@.len() == k,
                forall|j: int|
                    0 <= j < k ==> slot_matches(
                        self.regs@,
                        self.slots@[j].event,
                        #[trigger] by_type@[j],
                    ),
            decreases self.slots@.len() - k,
        {
            let e = self.slots[k].event;
            let slot = self.type_slot(e);
            by_type.push(slot);
            k = k + 1;
        }
        let dl = self.lane_snapshot(DEAD_LETTER_EVENT, true);
        proof {
            vstd::seq_lib::to_multiset_len(dl@);
            vstd::seq_lib::to_multiset_len(lane_for(self.regs@, DEAD_LETTER_EVENT, true));
        }
        let dead_letter = if dl.len() == 0 {
            None
        } else {
            Some(DeadLetterSlot { listeners: dl })
        };
        let (global_middlewares, global_has_async_middleware) = self.collect_globals();
        let r = RegistrySnapshot {
            by_type,
            dead_letter,
            global_middlewares,
            global_has_async_middleware,
        };
        proof {
            assert forall|i: int, j: int| 0 <= i < j < r.by_type@.len() implies r.by_type@[i].event
                != r.by_type@[j].event by {
                assert(slot_matches(self.regs@, self.slots@[i].event, r.by_type@[i]));
                assert(slot_matches(self.regs@, self.slots@[j].event, r.by_type@[j]));
            }
            assert forall|e: u64| (#[trigger] r.slot_spec(e)) is Some <==> live(self.regs(), e) by {
                if live(self.regs@, e) {
                    assert(has_slot(self.slots@, e));
                    let k = choose|k: int| 0 <= k < self.slots@.len() && (#[trigger] self.slots@[k]).event == e;
                    assert(slot_matches(self.regs@, self.slots@[k].event, r.by_type@[k]));
                    assert(r.by_type@[k].event == e);
                }
                if r.slot_spec(e) is Some {
                    let k = choose|k: int| 0 <= k < r.by_type@.len() && (#[trigger] r.by_type@[k]).event == e;
                    assert(slot_matches(self.regs@, self.slots@[k].event, r.by_type@[k]));
                    assert(self.slots@[k].event == e);
                    assert(has_slot(self.slots@, e));
                }
            }
            assert forall|e: u64| (#[trigger] r.slot_spec(e)) is Some implies slot_matches(
                self.regs(),
                e,
                r.slot_spec(e)->0,
            ) by {
                let k = choose|k: int| 0 <= k < r.by_type@.len() && (#[trigger] r.by_type@[k]).event == e;
                assert(slot_matches(self.regs@, self.slots@[k].event, r.by_type@[k]));
            }
        }
        r
    }
}


/// The name under which statistics report dead letters.
pub const DEAD_LETTER_NAME: &'static str = "jaeb::types::DeadLetter";

/// The identifier and name of each listener of `s`, in order.
pub open spec fn infos_of(s: Seq<ListenerEntry>) -> Seq<HandlerInfo> {
    s.map_values(|l: ListenerEntry| HandlerInfo { subscription_id: l.id, name: l.name })
}

/// Per event type with at least one listener, in slot order and dead
/// letters first: its name and its listeners.
pub open spec fn stats_entries(regs: Seq<Registration>, slots: Seq<SlotName>) -> Seq<
    (&'static str, Seq<HandlerInfo>),
> {
    let dead = listeners_for(regs, DEAD_LETTER_EVENT);
    let head = if dead.len() > 0 {
        seq![(DEAD_LETTER_NAME, infos_of(dead))]
    } else {
        Seq::empty()
    };
    head + slot_entries(regs, slots)
}

/// The entries of [`stats_entries`] for the recorded slots.
pub open spec fn slot_entries(regs: Seq<Registration>, slots: Seq<SlotName>) -> Seq<
    (&'static str, Seq<HandlerInfo>),
>
    decreases slots.len(),
{
    if slots.len() == 0 {
        Seq::empty()
    } else {
        let rest = slot_entries(regs, slots.drop_last());
        let e = slots.last().event;
        let ls = slot_lane_all(regs, e);
        if ls.len() > 0 {
            rest.push((slots.last().name, infos_of(ls)))
        } else {
            rest
        }
    }
}

/// Every per-event entry of the slots' part of a report lists a listener.
proof fn lemma_slot_entries_nonempty(regs: Seq<Registration>, slots: Seq<SlotName>)
    ensures
        forall|k: int|
            0 <= k < slot_entries(regs, slots).len() ==> (#[trigger] slot_entries(regs, slots)[k]).1.len()
                > 0,
    decreases slots.len(),
{
    if slots.len() > 0 {
        lemma_slot_entries_nonempty(regs, slots.drop_last());
        let rest = slot_entries(regs, slots.drop_last());
        let ls = slot_lane_all(regs, slots.last().event);
        if ls.len() > 0 {
            assert(infos_of(ls).len() == ls.len());
            assert forall|k: int| 0 <= k < slot_entries(regs, slots).len() implies (
            #[trigger] slot_entries(regs, slots)[k]).1.len() > 0 by {
                if k < rest.len() {
                    assert(slot_entries(regs, slots)[k] == rest[k]);
                }
            }
        }
    }
}

/// A statistics report names only event types that have a listener: every
/// per-event entry lists at least one listener.
pub proof fn law_stats_entries_have_listeners(regs: Seq<Registration>, slots: Seq<SlotName>)
    ensures
        forall|k: int|
            0 <= k < stats_entries(regs, slots).len() ==> (#[trigger] stats_entries(
                regs,
                slots,
            )[k]).1.len() > 0,
{
    lemma_slot_entries_nonempty(regs, slots);
    let dead = listeners_for(regs, DEAD_LETTER_EVENT);
    let head: Seq<(&'static str, Seq<HandlerInfo>)> = if dead.len() > 0 {
        seq![(DEAD_LETTER_NAME, infos_of(dead))]
    } else {
        Seq::empty()
    };
    assert(stats_entries(regs, slots) == head + slot_entries(regs, slots));
    assert forall|k: int| 0 <= k < stats_entries(regs, slots).len() implies (
    #[trigger] stats_entries(regs, slots)[k]).1.len() > 0 by {
        if k >= head.len() {
            assert(stats_entries(regs, slots)[k] == slot_entries(regs, slots)[k - head.len()]);
        }
    }
}

/// The listeners that the slot of `e` holds: none for the dead-letter key.
pub open spec fn slot_lane_all(regs: Seq<Registration>, e: u64) -> Seq<ListenerEntry> {
    if e == DEAD_LETTER_EVENT {
        Seq::empty()
    } else {
        listeners_for(regs, e)
    }
}

/// A point-in-time summary of the bus.
pub struct BusStats {
    /// Number of listeners across all event types.
    pub total_subscriptions: usize,
    /// Per event type with listeners: its name and its listeners.
    pub subscriptions_by_event: Vec<(&'static str, Vec<HandlerInfo>)>,
    /// Names of the event types with listeners, sorted.
    pub registered_event_types: Vec<&'static str>,
    /// Publish operations in progress.
    pub dispatches_in_flight: usize,
    /// Async listener invocations queued or running.
    pub in_flight_async: usize,
    /// Whether shutdown has been called.
    pub shutdown_called: bool,
}

impl BusStats {
    /// The per-event entries as plain sequences.
    pub open spec fn entries(self) -> Seq<(&'static str, Seq<HandlerInfo>)> {
        self.subscriptions_by_event@.map_values(
            |p: (&'static str, Vec<HandlerInfo>)| (p.0, p.1@),
        )
    }
}

impl MutableRegistry {
    fn listener_infos(&self, e: u64) -> (r: Vec<HandlerInfo>)
        ensures
            r@ == infos_of(listeners_for(self.regs@, e)),
    {
        let mut out: Vec<HandlerInfo> = Vec::new();
        let mut i: usize = 0;
        while i < self.regs.len()
            invariant
                i <= self.regs@.len(),
                out@ == infos_of(listeners_for(self.regs@.take(i as int), e)),
            decreases self.regs@.len() - i,
        {
            proof {
                assert(self.regs@.take(i + 1).drop_last() =~= self.regs@.take(i as int));
            }
            match self.regs[i] {
                Registration::Listener(l) => {
                    if l.event == e {
                        out.push(HandlerInfo { subscription_id: l.id, name: l.name });
                        proof {
                            assert(out@ =~= infos_of(listeners_for(self.regs@.take(i + 1), e)));
                        }
                    }
                },
                _ => {},
            }
            i = i + 1;
        }
        proof {
            assert(self.regs@.take(self.regs@.len() as int) =~= self.regs@);
        }
        out
    }

    fn listener_count(&self) -> (r: usize)
        ensures
            r == all_listeners(self.regs@).len(),
    {
        let mut n: usize = 0;
        let mut i: usize = 0;
        while i < self.regs.len()
            invariant
                i <= self.regs@.len(),
                n == all_listeners(self.regs@.take(i as int)).len(),
                n <= i,
            decreases self.regs@.len() - i,
        {
            proof {
                assert(self.regs@.take(i + 1).drop_last() =~= self.regs@.take(i as int));
            }
            match self.regs[i] {
                Registration::Listener(_) => {
                    n = n + 1;
                },
                _ => {},
            }
            i = i + 1;
        }
        proof {
            assert(self.regs@.take(self.regs@.len() as int) =~= self.regs@);
        }
        n
    }

    /// A summary of the registry: the listener count, the listeners per
    /// event type (dead letters first, then the slots in creation order),
    /// the sorted names of the event types with listeners, and the counters
    /// handed in.
    pub fn stats(
        &self,
        in_flight_async: usize,
        dispatches_in_flight: usize,
        shutdown_called: bool,
    ) -> (r: BusStats)
        ensures
            r.total_subscriptions == all_listeners(self.regs()).len(),
            r.entries() == stats_entries(self.regs(), self.slots()),
            sorted_strs(r.registered_event_types@),
            r.registered_event_types@.to_multiset() == stats_entries(
                self.regs(),
                self.slots(),
            ).map_values(|p: (&'static str, Seq<HandlerInfo>)| p.0).to_multiset(),
            r.dispatches_in_flight == dispatches_in_flight,
            r.in_flight_async == in_flight_async,
            r.shutdown_called == shutdown_called,
    {
        let mut by_event: Vec<(&'static str, Vec<HandlerInfo>)> = Vec::new();
        let mut names: Vec<&'static str> = Vec::new();
        let dead = self.listener_infos(DEAD_LETTER_EVENT);
        let ghost head: Seq<(&'static str, Seq<HandlerInfo>)> = if listeners_for(self.regs@, DEAD_LETTER_EVENT).len() > 0 {
            seq![(DEAD_LETTER_NAME, infos_of(listeners_for(self.regs@, DEAD_LETTER_EVENT)))]
        } else {
            Seq::empty()
        };
        if dead.len() > 0 {
            names.push(DEAD_LETTER_NAME);
            by_event.push((DEAD_LETTER_NAME, dead));
        }
        proof {
            assert(by_event@.map_values(|p: (&'static str, Vec<HandlerInfo>)| (p.0, p.1@)) =~= head);
            assert(names@ =~= head.map_values(|p: (&'static str, Seq<HandlerInfo>)| p.0));
        }
        let mut k: usize = 0;
        while k < self.slots.len()
            invariant
                k <= self.slots@.len(),
                by_event@.map_values(|p: (&'static str, Vec<HandlerInfo>)| (p.0, p.1@)) == head
                    + slot_entries(self.regs@, self.slots@.take(k as int)),
                names@ == (head + slot_entries(self.regs@, self.slots@.take(k as int))).map_values(
                    |p: (&'static str, Seq<HandlerInfo>)| p.0,
                ),
            decreases self.slots@.len() - k,
        {
            proof {
                assert(self.slots@.take(k + 1).drop_last() =~= self.slots@.take(k as int));
            }
            let slot = self.slots[k];
            if slot.event != DEAD_LETTER_EVENT {
                let infos = self.listener_infos(slot.event);
                if infos.len() > 0 {
                    let ghost before = by_event@;
                    let ghost before_names = names@;
                    by_event.push((slot.name, infos));
                    names.push(slot.name);
                    proof {
                        let f = |p: (&'static str, Vec<HandlerInfo>)| (p.0, p.1@);
                        let g = |p: (&'static str, Seq<HandlerInfo>)| p.0;
                        assert(by_event@.map_values(f) =~= before.map_values(f).push((slot.name, infos@)));
                        let full = head + slot_entries(self.regs@, self.slots@.take(k + 1));
                        assert(full =~= (head + slot_entries(self.regs@, self.slots@.take(k as int))).push((slot.name, infos@)));
                        assert(names@ =~= full.map_values(g));
                    }
                }
            }
            k = k + 1;
        }
        proof {
            assert(self.slots@.take(self.slots@.len() as int) =~= self.slots@);
        }
        let total = self.listener_count();
        let registered = sort_strs(&names);
        BusStats {
            total_subscriptions: total,
            subscriptions_by_event: by_event,
            registered_event_types: registered,
            dispatches_in_flight,
            in_flight_async,
            shutdown_called,
        }
    }
}

// ── Laws ──────────────────────────────────────────────────────────────────

proof fn lemma_without_absent(regs: Seq<Registration>, id: SubscriptionId)
    requires
        !has_id(regs, id),
    ensures
        without_id(regs, id) == regs,
    decreases regs.len(),
{
    if regs.len() > 0 {
        let init = regs.drop_last();
        assert(!has_id(init, id)) by {
            if has_id(init, id) {
                let i = choose|i: int| 0 <= i < init.len() && (#[trigger] init[i]).id_spec() == id;
                assert(regs[i] == init[i]);
            }
        }
        lemma_without_absent(init, id);
        assert(regs.last().id_spec() != id) by {
            assert(regs[regs.len() - 1] == regs.last());
        }
        assert(init.push(regs.last()) =~= regs);
    }
}

/// Removing a subscription leaves none carrying its identifier, so removing
/// it again finds nothing and changes nothing.
pub proof fn law_remove_twice(regs: Seq<Registration>, id: SubscriptionId)
    ensures
        !has_id(without_id(regs, id), id),
        without_id(without_id(regs, id), id) == without_id(regs, id),
{
    lemma_without_id_subset(regs, id);
    let out = without_id(regs, id);
    assert(!has_id(out, id)) by {
        if has_id(out, id) {
            let i = choose|i: int| 0 <= i < out.len() && (#[trigger] out[i]).id_spec() == id;
        }
    }
    lemma_without_absent(out, id);
}

/// A listener of a lane snapshot is a listener registration of `regs`.
proof fn lemma_lane_member(
    out: Seq<ListenerEntry>,
    regs: Seq<Registration>,
    e: u64,
    sync: bool,
    x: ListenerEntry,
)
    requires
        out.to_multiset() == lane_for(regs, e, sync).to_multiset(),
        out.contains(x),
    ensures
        exists|i: int| 0 <= i < regs.len() && regs[i] == Registration::Listener(x),
{
    broadcast use vstd::seq_lib::group_to_multiset_ensures;

    let input = lane_for(regs, e, sync);
    assert(out.to_multiset().count(x) > 0);
    assert(input.contains(x));
    let k = choose|k: int| 0 <= k < input.len() && input[k] == x;
    lemma_lane_from_regs(regs, e, sync);
    assert(exists|i: int|
        0 <= i < regs.len() && regs[i] == Registration::Listener(#[trigger] input[k]));
}

/// After a subscription is removed, no lane of the snapshot, for any event
/// type or for dead letters, holds a listener carrying its identifier.
pub proof fn law_removed_listener_not_dispatched(
    regs: Seq<Registration>,
    id: SubscriptionId,
    e: u64,
    slot: TypeSlot,
    dead: Seq<ListenerEntry>,
)
    requires
        slot_matches(without_id(regs, id), e, slot),
        lane_matches(dead, lane_for(without_id(regs, id), DEAD_LETTER_EVENT, true), true),
    ensures
        forall|k: int| 0 <= k < slot.sync_listeners@.len() ==> slot.sync_listeners@[k].id != id,
        forall|k: int| 0 <= k < slot.async_listeners@.len() ==> slot.async_listeners@[k].id != id,
        forall|k: int| 0 <= k < dead.len() ==> dead[k].id != id,
{
    let kept = without_id(regs, id);
    lemma_without_id_subset(regs, id);
    assert forall|k: int| 0 <= k < slot.sync_listeners@.len() implies slot.sync_listeners@[k].id
        != id by {
        let x = slot.sync_listeners@[k];
        assert(slot.sync_listeners@.contains(x));
        if e == DEAD_LETTER_EVENT {
            assert(slot_lane(kept, e, true) =~= Seq::<ListenerEntry>::empty());
            broadcast use vstd::seq_lib::group_to_multiset_ensures;
            assert(slot.sync_listeners@.to_multiset().count(x) > 0);
        } else {
            lemma_lane_member(slot.sync_listeners@, kept, e, true, x);
            let i = choose|i: int| 0 <= i < kept.len() && kept[i] == Registration::Listener(x);
            assert(kept[i].id_spec() != id);
        }
    }
    assert forall|k: int| 0 <= k < slot.async_listeners@.len() implies slot.async_listeners@[k].id
        != id by {
        let x = slot.async_listeners@[k];
        assert(slot.async_listeners@.contains(x));
        if e == DEAD_LETTER_EVENT {
            assert(slot_lane(kept, e, false) =~= Seq::<ListenerEntry>::empty());
            broadcast use vstd::seq_lib::group_to_multiset_ensures;
            assert(slot.async_listeners@.to_multiset().count(x) > 0);
        } else {
            lemma_lane_member(slot.async_listeners@, kept, e, false, x);
            let i = choose|i: int| 0 <= i < kept.len() && kept[i] == Registration::Listener(x);
            assert(kept[i].id_spec() != id);
        }
    }
    assert forall|k: int| 0 <= k < dead.len() implies dead[k].id != id by {
        let x = dead[k];
        assert(dead.contains(x));
        lemma_lane_member(dead, kept, DEAD_LETTER_EVENT, true, x);
        let i = choose|i: int| 0 <= i < kept.len() && kept[i] == Registration::Listener(x);
        assert(kept[i].id_spec() != id);
    }
}

/// A listener just registered for an event type is in the lane of its
/// policy (sync or async) in the snapshot slot of that type.
pub proof fn law_added_listener_dispatched(regs: Seq<Registration>, l: ListenerEntry, slot: TypeSlot)
    requires
        l.event != DEAD_LETTER_EVENT,
        slot_matches(regs.push(Registration::Listener(l)), l.event, slot),
    ensures
        l.policy is Sync ==> slot.sync_listeners@.contains(l),
        l.policy is Async ==> slot.async_listeners@.contains(l),
{
    broadcast use vstd::seq_lib::group_to_multiset_ensures;

    let regs2 = regs.push(Registration::Listener(l));
    assert(regs2.drop_last() =~= regs);
    let sync = l.policy is Sync;
    let lane = lane_for(regs2, l.event, sync);
    assert(lane == lane_for(regs, l.event, sync).push(l));
    assert(lane[lane.len() - 1] == l);
    assert(lane.contains(l));
    assert(lane.to_multiset().count(l) > 0);
    if sync {
        assert(slot.sync_listeners@.to_multiset().count(l) > 0);
    } else {
        assert(slot.async_listeners@.to_multiset().count(l) > 0);
    }
}

/// In a snapshot slot the sync lane runs higher priorities first and, among
/// equal priorities, earlier registrations first; the async lane runs in
/// registration order.
pub proof fn law_lane_order(regs: Seq<Registration>, e: u64, slot: TypeSlot)
    requires
        slot_matches(regs, e, slot),
    ensures
        forall|i: int, j: int|
            0 <= i < j < slot.sync_listeners@.len() ==> priority_of(#[trigger] slot.sync_listeners@[i])
                > priority_of(#[trigger] slot.sync_listeners@[j]) || (priority_of(
                slot.sync_listeners@[i],
            ) == priority_of(slot.sync_listeners@[j])
                && slot.sync_listeners@[i].registration_order
                < slot.sync_listeners@[j].registration_order),
        forall|i: int, j: int|
            0 <= i < j < slot.async_listeners@.len() ==> (
            #[trigger] slot.async_listeners@[i]).registration_order < (
            #[trigger] slot.async_listeners@[j]).registration_order,
{
    assert forall|i: int, j: int| 0 <= i < j < slot.sync_listeners@.len() implies priority_of(
        #[trigger] slot.sync_listeners@[i],
    ) > priority_of(#[trigger] slot.sync_listeners@[j]) || (priority_of(slot.sync_listeners@[i])
        == priority_of(slot.sync_listeners@[j]) && slot.sync_listeners@[i].registration_order
        < slot.sync_listeners@[j].registration_order) by {
        assert(precedes(slot.sync_listeners@[i], slot.sync_listeners@[j], true));
    }
    assert forall|i: int, j: int| 0 <= i < j < slot.async_listeners@.len() implies (
    #[trigger] slot.async_listeners@[i]).registration_order < (
    #[trigger] slot.async_listeners@[j]).registration_order by {
        assert(precedes(slot.async_listeners@[i], slot.async_listeners@[j], false));
    }
}

/// The number of listeners of `regs` whose event is one of `es`.
pub open spec fn count_among(regs: Seq<Registration>, es: Seq<u64>) -> nat
    decreases regs.len(),
{
    if regs.len() == 0 {
        0
    } else {
        count_among(regs.drop_last(), es) + if regs.last() is Listener && es.contains(
            regs.last()->Listener_0.event,
        ) {
            1nat
        } else {
            0nat
        }
    }
}

/// The number of listeners the entries of a statistics report list.
pub open spec fn entries_total(es: Seq<(&'static str, Seq<HandlerInfo>)>) -> nat
    decreases es.len(),
{
    if es.len() == 0 {
        0
    } else {
        entries_total(es.drop_last()) + es.last().1.len()
    }
}

/// The events of `slots` other than the dead-letter key, in order.
pub open spec fn plain_events(slots: Seq<SlotName>) -> Seq<u64>
    decreases slots.len(),
{
    if slots.len() == 0 {
        Seq::empty()
    } else if slots.last().event == DEAD_LETTER_EVENT {
        plain_events(slots.drop_last())
    } else {
        plain_events(slots.drop_last()).push(slots.last().event)
    }
}

proof fn lemma_count_among_push(regs: Seq<Registration>, es: Seq<u64>, e: u64)
    requires
        !es.contains(e),
    ensures
        count_among(regs, es.push(e)) == count_among(regs, es) + listeners_for(regs, e).len(),
    decreases regs.len(),
{
    if regs.len() > 0 {
        lemma_count_among_push(regs.drop_last(), es, e);
        if regs.last() is Listener {
            let ev = regs.last()->Listener_0.event;
            assert(es.push(e).contains(ev) <==> (es.contains(ev) || ev == e)) by {
                if es.push(e).contains(ev) {
                    let k = choose|k: int| 0 <= k < es.push(e).len() && es.push(e)[k] == ev;
                    if k < es.len() {
                        assert(es[k] == ev);
                    }
                }
                if es.contains(ev) {
                    let k = choose|k: int| 0 <= k < es.len() && es[k] == ev;
                    assert(es.push(e)[k] == ev);
                }
                if ev == e {
                    assert(es.push(e)[es.len() as int] == ev);
                }
            }
        }
    }
}

proof fn lemma_count_among_all(regs: Seq<Registration>, es: Seq<u64>)
    requires
        forall|i: int|
            0 <= i < regs.len() && (#[trigger] regs[i]) is Listener ==> es.contains(
                regs[i]->Listener_0.event,
            ),
    ensures
        count_among(regs, es) == all_listeners(regs).len(),
    decreases regs.len(),
{
    if regs.len() > 0 {
        let init = regs.drop_last();
        assert forall|i: int| 0 <= i < init.len() && (#[trigger] init[i]) is Listener implies es.contains(
            init[i]->Listener_0.event,
        ) by {
            assert(init[i] == regs[i]);
        }
        lemma_count_among_all(init, es);
        assert(regs[regs.len() - 1] == regs.last());
    }
}

proof fn lemma_entries_total_concat(
    a: Seq<(&'static str, Seq<HandlerInfo>)>,
    b: Seq<(&'static str, Seq<HandlerInfo>)>,
)
    ensures
        entries_total(a + b) == entries_total(a) + entries_total(b),
    decreases b.len(),
{
    if b.len() > 0 {
        lemma_entries_total_concat(a, b.drop_last());
        assert((a + b).drop_last() =~= a + b.drop_last());
        assert((a + b).last() == b.last());
    }
}

proof fn lemma_plain_events(slots: Seq<SlotName>)
    requires
        forall|i: int, j: int| 0 <= i < j < slots.len() ==> slots[i].event != slots[j].event,
    ensures
        forall|e: u64| #[trigger]
            plain_events(slots).contains(e) <==> (e != DEAD_LETTER_EVENT && has_slot(slots, e)),
    decreases slots.len(),
{
    if slots.len() > 0 {
        let init = slots.drop_last();
        lemma_plain_events(init);
        let last = slots.last();
        assert(slots[slots.len() - 1] == last);
        assert forall|e: u64| #[trigger]
            plain_events(slots).contains(e) <==> (e != DEAD_LETTER_EVENT && has_slot(slots, e)) by {
            let pe = plain_events(init);
            if plain_events(slots).contains(e) {
                if last.event != DEAD_LETTER_EVENT {
                    let k = choose|k: int| 0 <= k < pe.push(last.event).len() && pe.push(last.event)[k] == e;
                    if k < pe.len() {
                        assert(pe[k] == e);
                        assert(pe.contains(e));
                        let m = choose|m: int| 0 <= m < init.len() && (#[trigger] init[m]).event == e;
                        assert(slots[m] == init[m]);
                    }
                } else {
                    assert(pe.contains(e));
                    let m = choose|m: int| 0 <= m < init.len() && (#[trigger] init[m]).event == e;
                    assert(slots[m] == init[m]);
                }
            }
            if e != DEAD_LETTER_EVENT && has_slot(slots, e) {
                let m = choose|m: int| 0 <= m < slots.len() && (#[trigger] slots[m]).event == e;
                if m < init.len() {
                    assert(init[m] == slots[m]);
                    assert(has_slot(init, e));
                    assert(pe.contains(e));
                    let k = choose|k: int| 0 <= k < pe.len() && pe[k] == e;
                    if last.event != DEAD_LETTER_EVENT {
                        assert(pe.push(last.event)[k] == e);
                    }
                } else {
                    assert(pe.push(last.event)[pe.len() as int] == e);
                }
            }
        }
    }
}

proof fn lemma_slot_entries_total(regs: Seq<Registration>, slots: Seq<SlotName>)
    requires
        forall|i: int, j: int| 0 <= i < j < slots.len() ==> slots[i].event != slots[j].event,
    ensures
        entries_total(slot_entries(regs, slots)) == count_among(regs, plain_events(slots)),
    decreases slots.len(),
{
    if slots.len() == 0 {
        lemma_count_among_empty(regs);
    } else {
        let init = slots.drop_last();
        let last = slots.last();
        lemma_slot_entries_total(regs, init);
        let rest = slot_entries(regs, init);
        let ls = slot_lane_all(regs, last.event);
        if ls.len() > 0 {
            let pushed = rest.push((last.name, infos_of(ls)));
            assert(pushed.drop_last() =~= rest);
        }
        if last.event != DEAD_LETTER_EVENT {
            lemma_plain_events(init);
            assert(!plain_events(init).contains(last.event)) by {
                if plain_events(init).contains(last.event) {
                    let m = choose|m: int| 0 <= m < init.len() && (#[trigger] init[m]).event == last.event;
                    assert(slots[m] == init[m]);
                    assert(slots[slots.len() - 1] == last);
                }
            }
            lemma_count_among_push(regs, plain_events(init), last.event);
        }
    }
}

proof fn lemma_count_among_empty(regs: Seq<Registration>)
    ensures
        count_among(regs, Seq::empty()) == 0,
    decreases regs.len(),
{
    if regs.len() > 0 {
        lemma_count_among_empty(regs.drop_last());
    }
}

/// The total of a statistics report counts every listener once: it is the
/// sum of the lengths of the per-event listener lists the report holds.
pub proof fn law_stats_total_is_sum(reg: MutableRegistry)
    requires
        reg.wf(),
    ensures
        all_listeners(reg.regs()).len() == entries_total(stats_entries(reg.regs(), reg.slots())),
{
    let regs = reg.regs();
    let slots = reg.slots();
    let pe = plain_events(slots);
    lemma_plain_events(slots);
    lemma_slot_entries_total(regs, slots);
    let es = pe.push(DEAD_LETTER_EVENT);
    assert(!pe.contains(DEAD_LETTER_EVENT));
    lemma_count_among_push(regs, pe, DEAD_LETTER_EVENT);
    assert forall|i: int| 0 <= i < regs.len() && (#[trigger] regs[i]) is Listener implies es.contains(
        regs[i]->Listener_0.event,
    ) by {
        let ev = regs[i]->Listener_0.event;
        if ev == DEAD_LETTER_EVENT {
            assert(es[pe.len() as int] == ev);
        } else {
            assert(keeps_slot(regs[i], ev));
            assert(live(regs, ev));
            assert(has_slot(slots, ev));
            assert(pe.contains(ev));
            let k = choose|k: int| 0 <= k < pe.len() && pe[k] == ev;
            assert(es[k] == ev);
        }
    }
    lemma_count_among_all(regs, es);
    let dead = listeners_for(regs, DEAD_LETTER_EVENT);
    let head: Seq<(&'static str, Seq<HandlerInfo>)> = if dead.len() > 0 {
        seq![(DEAD_LETTER_NAME, infos_of(dead))]
    } else {
        Seq::empty()
    };
    lemma_entries_total_concat(head, slot_entries(regs, slots));
    assert(stats_entries(regs, slots) == head + slot_entries(regs, slots));
    if dead.len() > 0 {
        assert(head.drop_last() =~= Seq::<(&'static str, Seq<HandlerInfo>)>::empty());
        assert(entries_total(head.drop_last()) == 0);
        assert(head.last() == (DEAD_LETTER_NAME, infos_of(dead)));
        assert(infos_of(dead).len() == dead.len());
        assert(entries_total(head) == dead.len());
    } else {
        assert(entries_total(head) == 0);
    }
}

proof fn lemma_live_slots_all_live(slots: Seq<SlotName>, regs: Seq<Registration>)
    requires
        forall|k: int| 0 <= k < slots.len() ==> live(regs, (#[trigger] slots[k]).event),
    ensures
        live_slots(slots, regs) == slots,
    decreases slots.len(),
{
    if slots.len() > 0 {
        let init = slots.drop_last();
        assert forall|k: int| 0 <= k < init.len() implies live(regs, (#[trigger] init[k]).event) by {
            assert(init[k] == slots[k]);
        }
        lemma_live_slots_all_live(init, regs);
        assert(live(regs, slots[slots.len() - 1].event));
        assert(init.push(slots.last()) =~= slots);
    }
}

/// Registering a listener and then removing it leaves the registrations,
/// and the slots, as they were.
pub proof fn law_add_then_remove_restores(
    reg: MutableRegistry,
    id: SubscriptionId,
    event: u64,
    event_name: &'static str,
    policy: ListenerPolicy,
    name: Option<&'static str>,
    once: bool,
)
    requires
        reg.wf(),
        !has_id(reg.regs(), id),
    ensures
        ({
            let added = reg.regs().push(
                Registration::Listener(
                    ListenerEntry { id, registration_order: id@, event, policy, name, once },
                ),
            );
            let slots = if event == DEAD_LETTER_EVENT || has_slot(reg.slots(), event) {
                reg.slots()
            } else {
                reg.slots().push(SlotName { event, name: event_name })
            };
            &&& without_id(added, id) == reg.regs()
            &&& live_slots(slots, without_id(added, id)) == reg.slots()
        }),
{
    let regs = reg.regs();
    let l = ListenerEntry { id, registration_order: id@, event, policy, name, once };
    let added = regs.push(Registration::Listener(l));
    assert(added.drop_last() =~= regs);
    assert(added.last().id_spec() == id);
    lemma_without_absent(regs, id);
    assert(without_id(added, id) == regs);
    let slots = reg.slots();
    assert forall|k: int| 0 <= k < slots.len() implies live(regs, (#[trigger] slots[k]).event) by {
        assert(has_slot(slots, slots[k].event));
    }
    lemma_live_slots_all_live(slots, regs);
    if !(event == DEAD_LETTER_EVENT || has_slot(slots, event)) {
        let pushed = slots.push(SlotName { event, name: event_name });
        assert(pushed.drop_last() =~= slots);
        assert(!live(regs, event));
    }
}

} // verus!
