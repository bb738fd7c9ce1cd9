//! Dispatch decisions: the in-flight/closed state of a bus, how a publish
//! is routed, the middleware pipeline, the walk over the lanes with the
//! fire-once rule, and the failures that become dead letters.
use vstd::prelude::*;

use crate::duration::Duration;
use crate::error::{middleware_panic_error, EventBusError};
use crate::registry::{
    has_id, law_remove_twice, live_slots, without_id, DeadLetterSlot, GlobalMiddleware, ListenerEntry,
    ListenerPolicy, MutableRegistry, Registration, RegistrySnapshot, TypeSlot, TypedMiddlewareSlot,
    DEAD_LETTER_EVENT,
};
use crate::types::SubscriptionId;

verus! {

// ── Dispatch state ────────────────────────────────────────────────────────

/// The bit of the dispatch state that marks the bus as closed.
pub const DISPATCH_CLOSED_BIT: u64 = 0x8000_0000_0000_0000;

/// The bits of the dispatch state that count publishes in flight.
pub const DISPATCH_COUNT_MASK: u64 = 0x7fff_ffff_ffff_ffff;

/// Whether the state `s` marks the bus as closed.
pub open spec fn state_closed(s: u64) -> bool {
    s >= 0x8000_0000_0000_0000
}

/// The number of publishes in flight recorded in `s`.
pub open spec fn state_count(s: u64) -> nat {
    (s % 0x8000_0000_0000_0000) as nat
}

/// Whether the bus is closed.
pub fn is_stopped(state: u64) -> (r: bool)
    ensures
        r == state_closed(state),
{
    proof {
        assert((state & 0x8000_0000_0000_0000u64 != 0) == (state >= 0x8000_0000_0000_0000u64))
            by (bit_vector);
    }
    state & DISPATCH_CLOSED_BIT != 0
}

/// The number of publishes in flight.
pub fn dispatches_in_flight(state: u64) -> (r: u64)
    ensures
        r == state_count(state),
{
    proof {
        assert(state & 0x7fff_ffff_ffff_ffffu64 == state % 0x8000_0000_0000_0000u64)
            by (bit_vector);
    }
    state & DISPATCH_COUNT_MASK
}

/// The state after admitting one more publish: refused once the bus is
/// closed.
pub open spec fn begin_spec(state: u64) -> Result<u64, EventBusError> {
    if state_closed(state) {
        Err(EventBusError::Stopped)
    } else {
        Ok((state + 1) as u64)
    }
}

/// The state after one admitted publish finished.
pub open spec fn finish_spec(state: u64) -> u64 {
    (state - 1) as u64
}

/// The state after closing the bus; `None` where it was already closed.
pub open spec fn close_spec(state: u64) -> Option<u64> {
    if state_closed(state) {
        None
    } else {
        Some((state + 0x8000_0000_0000_0000) as u64)
    }
}

/// Admits one more publish: refused once the bus is closed.
pub fn begin_dispatch(state: u64) -> (r: Result<u64, EventBusError>)
    requires
        !state_closed(state) ==> state_count(state) < 0x7fff_ffff_ffff_ffff,
    ensures
        r == begin_spec(state),
        r matches Ok(n) ==> !state_closed(n) && state_count(n) == state_count(state) + 1,
{
    if is_stopped(state) {
        Err(EventBusError::Stopped)
    } else {
        Ok(state + 1)
    }
}

/// Marks one admitted publish as finished; also says whether it was the
/// last one in flight.
pub fn finish_dispatch(state: u64) -> (r: (u64, bool))
    requires
        state_count(state) > 0,
    ensures
        r.0 == finish_spec(state),
        state_closed(r.0) == state_closed(state),
        state_count(r.0) == state_count(state) - 1,
        r.1 == (state_count(state) == 1),
{
    let count = dispatches_in_flight(state);
    (state - 1, count == 1)
}

/// Closes the bus; `None` where it was already closed.
pub fn close_dispatches(state: u64) -> (r: Option<u64>)
    ensures
        r == close_spec(state),
        r matches Some(n) ==> state_closed(n) && state_count(n) == state_count(state),
{
    if is_stopped(state) {
        None
    } else {
        proof {
            assert((state | 0x8000_0000_0000_0000u64) == state + 0x8000_0000_0000_0000u64) by (
            bit_vector)
                requires
                    state < 0x8000_0000_0000_0000u64,
            ;
        }
        Some(state | DISPATCH_CLOSED_BIT)
    }
}

/// Once closed, the bus admits no publish, closing it again changes
/// nothing, and publishes still in flight finish without reopening it.
pub proof fn law_closed_is_final(state: u64)
    requires
        state_closed(state),
    ensures
        begin_spec(state) == Err::<u64, EventBusError>(EventBusError::Stopped),
        close_spec(state) is None,
        state_count(state) > 0 ==> state_closed(finish_spec(state)),
{
}

/// Closing an open bus keeps the count of publishes in flight and refuses
/// every publish after it.
pub proof fn law_close_refuses_later_publishes(state: u64)
    requires
        !state_closed(state),
    ensures
        close_spec(state) matches Some(n) && state_count(n) == state_count(state) && begin_spec(n)
            == Err::<u64, EventBusError>(EventBusError::Stopped),
{
}

/// Admitting a publish and finishing it gives back the state it started
/// from.
pub proof fn law_begin_finish_roundtrip(state: u64)
    requires
        !state_closed(state),
        state_count(state) < 0x7fff_ffff_ffff_ffff,
    ensures
        begin_spec(state) matches Ok(n) && finish_spec(n) == state,
{
}

// ── Unsubscribing

/// What unsubscribing `id` answers on a bus in dispatch state `state`
/// holding the registrations `regs`: `Stopped` once the bus is closed,
/// else whether a registration carried `id`.
pub open spec fn unsubscribe_answer(state: u64, regs: Seq<Registration>, id: SubscriptionId) -> Result<
    bool,
    EventBusError,
> {
    if state_closed(state) {
        Err(EventBusError::Stopped)
    } else {
        Ok(has_id(regs, id))
    }
}

/// Unsubscribing twice, then after shutdown: on an open bus the first call
/// answers whether `id` was registered and the second answers `false`;
/// once the bus is closed, every call answers `Stopped`, whatever is
/// registered.
pub proof fn law_unsubscribe_sequence(
    regs: Seq<Registration>,
    id: SubscriptionId,
    state: u64,
    later: Seq<Registration>,
)
    requires
        !state_closed(state),
    ensures
        unsubscribe_answer(state, regs, id) == Ok::<bool, EventBusError>(has_id(regs, id)),
        unsubscribe_answer(state, without_id(regs, id), id) == Ok::<bool, EventBusError>(false),
        close_spec(state) matches Some(n) && unsubscribe_answer(n, later, id) == Err::<
            bool,
            EventBusError,
        >(EventBusError::Stopped),
{
    law_remove_twice(regs, id);
    law_close_refuses_later_publishes(state);
}

impl MutableRegistry {
    /// Unsubscribes `id` on a bus in dispatch state `state`: refused with
    /// `Stopped` once the bus is closed, changing nothing; otherwise removes
    /// the registration carrying `id` as
    /// [`remove_subscription`](Self::remove_subscription) does and answers
    /// whether there was one.
    pub fn unsubscribe(&mut self, state: u64, id: SubscriptionId) -> (r: Result<bool, EventBusError>)
        requires
            old(self).wf(),
        ensures
            final(self).wf(),
            r == unsubscribe_answer(state, old(self).regs(), id),
            state_closed(state) ==> final(self).regs() == old(self).regs() && final(self).slots()
                == old(self).slots(),
            !state_closed(state) ==> final(self).regs() == without_id(old(self).regs(), id)
                && final(self).slots() == live_slots(old(self).slots(), final(self).regs()),
    {
        if is_stopped(state) {
            return Err(EventBusError::Stopped);
        }
        Ok(self.remove_subscription(id))
    }

}

// ── Routing a publish ─────────────────────────────────────────────────────

/// How a publish of one event type proceeds.
#[derive(Debug, Clone, Copy, PartialEq, Eq, Structural)]
pub enum PublishRoute {
    /// Nothing listens and no global middleware runs: nothing to do.
    Skip,
    /// Only synchronous work: sync middlewares and the sync lane.
    SyncOnly,
    /// Async work is involved: middlewares, then the async lane is
    /// scheduled and the sync lane runs.
    Full,
}

/// The route of a publish for the snapshot's slot `slot` of the event.
pub open spec fn route_spec(snapshot: RegistrySnapshot, slot: Option<TypeSlot>) -> PublishRoute {
    if slot is None && snapshot.global_middlewares@.len() == 0 {
        PublishRoute::Skip
    } else if !snapshot.global_has_async_middleware && (match slot {
        Some(s) => s.async_listeners@.len() == 0 && !s.has_async_middleware,
        None => true,
    }) {
        PublishRoute::SyncOnly
    } else {
        PublishRoute::Full
    }
}

/// A publish is dropped only when nothing could see it: its event type has
/// no slot and no global middleware runs. A slot with an async listener
/// sends the publish down the full path, where the listener is scheduled;
/// with no async work anywhere, a publish that is not dropped takes the
/// sync-only path.
pub proof fn law_publish_route(snapshot: RegistrySnapshot, slot: Option<TypeSlot>)
    ensures
        (route_spec(snapshot, slot) == PublishRoute::Skip) <==> (slot is None
            && snapshot.global_middlewares@.len() == 0),
        (slot matches Some(s) && s.async_listeners@.len() > 0) ==> route_spec(snapshot, slot)
            == PublishRoute::Full,
        (slot matches Some(s) && s.has_async_middleware) ==> route_spec(snapshot, slot)
            == PublishRoute::Full,
        (snapshot.global_has_async_middleware && !(slot is None
            && snapshot.global_middlewares@.len() == 0)) ==> route_spec(snapshot, slot)
            == PublishRoute::Full,
        (!(slot is None && snapshot.global_middlewares@.len() == 0)
            && !snapshot.global_has_async_middleware && (match slot {
            Some(s) => s.async_listeners@.len() == 0 && !s.has_async_middleware,
            None => true,
        })) ==> route_spec(snapshot, slot) == PublishRoute::SyncOnly,
{
}

/// Decides how a publish proceeds, given the slot of its event type.
pub fn publish_route(snapshot: &RegistrySnapshot, slot: Option<&TypeSlot>) -> (r: PublishRoute)
    ensures
        r == route_spec(
            *snapshot,
            match slot {
                Some(s) => Some(*s),
                None => None,
            },
        ),
{
    match slot {
        None => {
            if snapshot.global_middlewares.len() == 0 {
                PublishRoute::Skip
            } else if !snapshot.global_has_async_middleware {
                PublishRoute::SyncOnly
            } else {
                PublishRoute::Full
            }
        },
        Some(s) => {
            if !snapshot.global_has_async_middleware && s.async_listeners.len() == 0
                && !s.has_async_middleware {
                PublishRoute::SyncOnly
            } else {
                PublishRoute::Full
            }
        },
    }
}

// ── Middleware pipeline ───────────────────────────────────────────────────

/// Decision returned by a middleware.
#[derive(Debug, PartialEq, Eq)]
pub enum MiddlewareDecision {
    /// Let the event proceed.
    Continue,
    /// Reject the event with a reason; no listener runs.
    Reject(String),
}

impl Clone for MiddlewareDecision {
    fn clone(&self) -> (r: MiddlewareDecision)
        ensures
            r == *self,
    {
        match self {
            MiddlewareDecision::Continue => MiddlewareDecision::Continue,
            MiddlewareDecision::Reject(reason) => MiddlewareDecision::Reject(reason.clone()),
        }
    }
}

/// A middleware of the pipeline.
#[derive(Debug, Clone, Copy)]
pub enum MiddlewareRef {
    /// A global middleware.
    Global(GlobalMiddleware),
    /// A middleware typed on the published event.
    Typed(TypedMiddlewareSlot),
}

/// The outcome of a pipeline whose middlewares decided `ds`, in order: the
/// first rejection wins.
pub open spec fn pipeline_outcome(ds: Seq<MiddlewareDecision>) -> Result<(), EventBusError>
    decreases ds.len(),
{
    if ds.len() == 0 {
        Ok(())
    } else {
        match ds[0] {
            MiddlewareDecision::Reject(reason) => Err(EventBusError::MiddlewareRejected(reason)),
            MiddlewareDecision::Continue => pipeline_outcome(ds.drop_first()),
        }
    }
}

/// The middlewares a publish runs: the global ones, then those typed on the
/// event, each in registration order.
pub open spec fn chain_spec(globals: Seq<GlobalMiddleware>, typed: Seq<TypedMiddlewareSlot>) -> Seq<
    MiddlewareRef,
> {
    globals.map_values(|g: GlobalMiddleware| MiddlewareRef::Global(g)) + typed.map_values(
        |t: TypedMiddlewareSlot| MiddlewareRef::Typed(t),
    )
}

/// Whether a middleware of the pipeline decides asynchronously.
pub open spec fn ref_is_async(m: MiddlewareRef) -> bool {
    match m {
        MiddlewareRef::Global(g) => g.is_async,
        MiddlewareRef::Typed(t) => t.is_async,
    }
}

/// The middlewares typed on the event of `slot`; none without a slot.
pub open spec fn slot_middlewares(slot: Option<TypeSlot>) -> Seq<TypedMiddlewareSlot> {
    match slot {
        Some(s) => s.middlewares@,
        None => Seq::empty(),
    }
}

/// A publish routed to the sync-only path meets no async middleware and no
/// async listener: where the snapshot's flags say which middlewares are
/// async (as [`MutableRegistry::snapshot`](crate::registry::MutableRegistry::snapshot)
/// ensures), every middleware of its chain decides synchronously.
pub proof fn law_sync_only_route_is_sync(snapshot: RegistrySnapshot, slot: Option<TypeSlot>)
    requires
        snapshot.global_has_async_middleware == crate::registry::any_async_global(
            snapshot.global_middlewares@,
        ),
        slot matches Some(s) ==> s.has_async_middleware == crate::registry::any_async_typed(
            s.middlewares@,
        ),
        route_spec(snapshot, slot) == PublishRoute::SyncOnly,
    ensures
        forall|k: int|
            0 <= k < chain_spec(snapshot.global_middlewares@, slot_middlewares(slot)).len()
                ==> !ref_is_async(
                #[trigger] chain_spec(snapshot.global_middlewares@, slot_middlewares(slot))[k],
            ),
        slot matches Some(s) ==> s.async_listeners@.len() == 0,
{
    let globals = snapshot.global_middlewares@;
    let typed = slot_middlewares(slot);
    let chain = chain_spec(globals, typed);
    assert forall|k: int| 0 <= k < chain.len() implies !ref_is_async(#[trigger] chain[k]) by {
        if k < globals.len() {
            assert(chain[k] == MiddlewareRef::Global(globals[k]));
            if globals[k].is_async {
                assert(crate::registry::any_async_global(globals));
            }
        } else {
            let j = k - globals.len();
            assert(chain[k] == MiddlewareRef::Typed(typed[j]));
            if typed[j].is_async {
                assert(crate::registry::any_async_typed(typed));
            }
        }
    }
}

/// Runs middlewares in order until one rejects: it names the next
/// middleware to run, takes each decision, and reports the outcome.
pub struct MiddlewareRun {
    chain: Vec<MiddlewareRef>,
    decided: usize,
    outcome: Option<EventBusError>,
    decisions: Ghost<Seq<MiddlewareDecision>>,
}

impl MiddlewareRun {
    /// The middlewares of the run, in the order they run.
    pub closed spec fn chain(self) -> Seq<MiddlewareRef> {
        self.chain@
    }

    /// The decisions taken so far.
    pub closed spec fn decisions(self) -> Seq<MiddlewareDecision> {
        self.decisions@
    }

    /// Whether the run is over: a middleware rejected or none is left.
    pub closed spec fn finished(self) -> bool {
        self.outcome is Some || self.decided == self.chain@.len()
    }

    /// The run's invariant.
    pub closed spec fn wf(self) -> bool {
        &&& self.decided == self.decisions@.len()
        &&& self.decided <= self.chain@.len()
        &&& self.chain@.len() <= usize::MAX
        &&& (forall|i: int|
            0 <= i < self.decisions@.len() - 1 ==> self.decisions@[i] is Continue)
        &&& (self.outcome is None ==> forall|i: int|
            0 <= i < self.decisions@.len() ==> self.decisions@[i] is Continue)
        &&& (self.outcome matches Some(e) ==> self.decisions@.len() > 0 && (
        match self.decisions@.last() {
            MiddlewareDecision::Reject(reason) => e == EventBusError::MiddlewareRejected(reason),
            MiddlewareDecision::Continue => false,
        }))
    }

    /// A run over the global middlewares of `snapshot` and those of `slot`.
    pub fn new(snapshot: &RegistrySnapshot, slot: Option<&TypeSlot>) -> (r: MiddlewareRun)
        ensures
            r.wf(),
            r.decisions() == Seq::<MiddlewareDecision>::empty(),
            r.chain() == chain_spec(
                snapshot.global_middlewares@,
                match slot {
                    Some(s) => s.middlewares@,
                    None => Seq::empty(),
                },
            ),
    {
        let mut chain: Vec<MiddlewareRef> = Vec::new();
        let mut i: usize = 0;
        while i < snapshot.global_middlewares.len()
            invariant
                i <= snapshot.global_middlewares@.len(),
                chain@ == snapshot.global_middlewares@.take(i as int).map_values(
                    |g: GlobalMiddleware| MiddlewareRef::Global(g),
                ),
            decreases snapshot.global_middlewares@.len() - i,
        {
            chain.push(MiddlewareRef::Global(snapshot.global_middlewares[i]));
            proof {
                assert(chain@ =~= snapshot.global_middlewares@.take(i + 1).map_values(
                    |g: GlobalMiddleware| MiddlewareRef::Global(g),
                ));
            }
            i = i + 1;
        }
        let ghost globals_part = chain@;
        proof {
            assert(snapshot.global_middlewares@.take(i as int) =~= snapshot.global_middlewares@);
        }
        let ghost typed: Seq<TypedMiddlewareSlot> = match slot {
            Some(s) => s.middlewares@,
            None => Seq::empty(),
        };
        match slot {
            Some(s) => {
                let mut j: usize = 0;
                while j < s.middlewares.len()
                    invariant
                        j <= s.middlewares@.len(),
                        typed == s.middlewares@,
                        chain@ == globals_part + s.middlewares@.take(j as int).map_values(
                            |t: TypedMiddlewareSlot| MiddlewareRef::Typed(t),
                        ),
                    decreases s.middlewares@.len() - j,
                {
                    chain.push(MiddlewareRef::Typed(s.middlewares[j]));
                    proof {
                        assert(chain@ =~= globals_part + s.middlewares@.take(j + 1).map_values(
                            |t: TypedMiddlewareSlot| MiddlewareRef::Typed(t),
                        ));
                    }
                    j = j + 1;
                }
                proof {
                    assert(s.middlewares@.take(j as int) =~= s.middlewares@);
                }
            },
            None => {
                proof {
                    assert(chain@ =~= globals_part + typed.map_values(
                        |t: TypedMiddlewareSlot| MiddlewareRef::Typed(t),
                    ));
                }
            },
        }
        let chain_len = chain.len();
        proof {
            assert(chain@.len() == chain_len);
        }
        MiddlewareRun { chain, decided: 0, outcome: None, decisions: Ghost(Seq::empty()) }
    }

    /// The middleware to run next, or `None` once the run is over.
    pub fn next(&self) -> (r: Option<MiddlewareRef>)
        requires
            self.wf(),
        ensures
            self.finished() ==> r is None,
            !self.finished() ==> r == Some(self.chain()[self.decisions().len() as int]),
    {
        if self.outcome.is_some() || self.decided >= self.chain.len() {
            None
        } else {
            Some(self.chain[self.decided])
        }
    }

    /// Takes the decision of the middleware that [`next`](Self::next) named.
    pub fn record(&mut self, decision: MiddlewareDecision)
        requires
            old(self).wf(),
            !old(self).finished(),
        ensures
            final(self).wf(),
            final(self).chain() == old(self).chain(),
            final(self).decisions() == old(self).decisions().push(decision),
    {
        let ghost before = self.decisions@;
        match &decision {
            MiddlewareDecision::Reject(reason) => {
                self.outcome = Some(EventBusError::MiddlewareRejected(reason.clone()));
            },
            MiddlewareDecision::Continue => {},
        }
        self.decided = self.decided + 1;
        self.decisions = Ghost(before.push(decision));
        proof {
            assert(self.decisions@.last() == decision);
            assert forall|i: int| 0 <= i < self.decisions@.len() - 1 implies self.decisions@[i] is Continue by {
                assert(self.decisions@[i] == before[i]);
            }
        }
    }

    /// The outcome of a finished run: the first rejection, if any.
    pub fn outcome(&self) -> (r: Result<(), EventBusError>)
        requires
            self.wf(),
            self.finished(),
        ensures
            r == pipeline_outcome(self.decisions()),
    {
        proof {
            lemma_pipeline_outcome(self.decisions@);
        }
        match &self.outcome {
            Some(e) => Err(e.clone()),
            None => Ok(()),
        }
    }

    /// The outcome where the named middleware panicked with `msg`.
    pub fn panicked(&self, msg: &str) -> (r: Result<(), EventBusError>)
        ensures
            r matches Err(EventBusError::MiddlewareRejected(reason)) && reason@
                == "middleware panicked: "@ + msg@,
    {
        Err(middleware_panic_error(msg))
    }
}

/// The outcome of decisions that all continue but possibly the last, which
/// rejects: that rejection, or success.
pub proof fn lemma_pipeline_outcome(ds: Seq<MiddlewareDecision>)
    requires
        forall|i: int| 0 <= i < ds.len() - 1 ==> ds[i] is Continue,
    ensures
        ds.len() == 0 || ds.last() is Continue ==> pipeline_outcome(ds) == Ok::<
            (),
            EventBusError,
        >(()),
        ds.len() > 0 && ds.last() is Reject ==> pipeline_outcome(ds) == Err::<(), EventBusError>(
            EventBusError::MiddlewareRejected(ds.last()->Reject_0),
        ),
    decreases ds.len(),
{
    if ds.len() == 1 {
        assert(ds.drop_first().len() == 0);
        assert(ds[0] == ds.last());
    } else if ds.len() > 1 {
        let rest = ds.drop_first();
        assert(forall|i: int| 0 <= i < rest.len() - 1 ==> rest[i] == ds[i + 1]);
        lemma_pipeline_outcome(rest);
        assert(rest.last() == ds.last());
        assert(ds[0] is Continue);
    }
}

/// No middleware runs after one rejects, and the rejection's reason is what
/// the publish reports.
pub proof fn law_first_reject_wins(
    ds: Seq<MiddlewareDecision>,
    k: int,
    reason: String,
)
    requires
        0 <= k < ds.len(),
        forall|i: int| 0 <= i < k ==> ds[i] is Continue,
        ds[k] == MiddlewareDecision::Reject(reason),
    ensures
        pipeline_outcome(ds) == Err::<(), EventBusError>(EventBusError::MiddlewareRejected(reason)),
    decreases k,
{
    if k > 0 {
        let rest = ds.drop_first();
        assert(rest[k - 1] == ds[k]);
        assert(forall|i: int| 0 <= i < k - 1 ==> rest[i] == ds[i + 1]);
        law_first_reject_wins(rest, k - 1, reason);
    }
}

// ── Fire-once rule ────────────────────────────────────────────────────────

/// Whether a listener fires: always unless it is fire-once, in which case
/// only when its claim on the shared fired flag succeeded (`claimed`), or
/// when it has no flag.
pub open spec fn fire_decision(once: bool, claimed: Option<bool>) -> bool {
    !once || match claimed {
        Some(c) => c,
        None => true,
    }
}

/// Whether a listener fires; see [`fire_decision`].
pub fn should_fire_once(once: bool, claimed: Option<bool>) -> (r: bool)
    ensures
        r == fire_decision(once, claimed),
{
    if !once {
        return true;
    }
    match claimed {
        Some(c) => c,
        None => true,
    }
}

/// A listener that is not fire-once always fires, whatever its claim; a
/// fire-once listener fires exactly when its claim succeeded, or when it
/// carries no flag to claim.
pub proof fn law_fire_decision(claimed: Option<bool>, c: bool)
    ensures
        fire_decision(false, claimed),
        fire_decision(true, Some(c)) == c,
        fire_decision(true, None),
{
}

/// A fire-once listener fires at most once, however many dispatches claim
/// its fired flag and in whatever order they do: a claim sets the flag and
/// succeeds exactly when it found the flag clear, so every claim after the
/// first finds it set. `seen[k]` is what the claim numbered `k`
/// saw; of any two claims, not both let the listener fire.
pub proof fn law_fire_once_at_most_once(seen: Seq<bool>, i: int, j: int)
    requires
        forall|k: int| 0 < k < seen.len() ==> #[trigger] seen[k],
        0 <= i < j < seen.len(),
    ensures
        !(fire_decision(true, Some(!seen[i])) && fire_decision(true, Some(!seen[j]))),
{
    assert(seen[j]);
}

// ── Running the lanes ─────────────────────────────────────────────────────

/// The identifiers of the fire-once listeners among `ls` that ran, where
/// `ran[i]` says whether `ls[i]` ran, in the order they ran.
pub open spec fn removed_ids(ls: Seq<ListenerEntry>, ran: Seq<bool>) -> Seq<SubscriptionId>
    decreases ran.len(),
{
    if ran.len() == 0 {
        Seq::empty()
    } else {
        let i = ran.len() - 1;
        let prev = removed_ids(ls, ran.drop_last());
        if ran[i] && ls[i].once {
            prev.push(ls[i].id)
        } else {
            prev
        }
    }
}

/// Walks the listeners of one delivery in order: the async lane first
/// (where async work is scheduled), then the sync lane. For each listener
/// it says whether it fires, takes back whether it ran, and collects the
/// fire-once listeners that ran, to be removed afterwards.
pub struct LaneRun {
    listeners: Vec<ListenerEntry>,
    async_count: usize,
    pos: usize,
    once_ran: Vec<SubscriptionId>,
    ran: Ghost<Seq<bool>>,
}

impl LaneRun {
    /// The listeners of the delivery, in the order they are visited.
    pub closed spec fn listeners(self) -> Seq<ListenerEntry> {
        self.listeners@
    }

    /// How many of them, at the front, are async.
    pub closed spec fn async_count(self) -> nat {
        self.async_count as nat
    }

    /// Whether each listener visited so far ran.
    pub closed spec fn ran(self) -> Seq<bool> {
        self.ran@
    }

    /// The run's invariant.
    pub closed spec fn wf(self) -> bool {
        &&& self.pos == self.ran@.len()
        &&& self.pos <= self.listeners@.len()
        &&& self.async_count <= self.listeners@.len()
        &&& self.once_ran@ == removed_ids(self.listeners@, self.ran@)
    }

    /// A delivery of `slot`'s listeners; its async lane is visited only
    /// where async work is scheduled (`spawn_async`).
    pub fn new(slot: &TypeSlot, spawn_async: bool) -> (r: LaneRun)
        ensures
            r.wf(),
            r.listeners() == (if spawn_async {
                slot.async_listeners@
            } else {
                Seq::empty()
            }) + slot.sync_listeners@,
            r.async_count() == (if spawn_async {
                slot.async_listeners@.len()
            } else {
                0
            }),
            r.ran() == Seq::<bool>::empty(),
    {
        let mut listeners: Vec<ListenerEntry> = Vec::new();
        if spawn_async {
            let mut i: usize = 0;
            while i < slot.async_listeners.len()
                invariant
                    i <= slot.async_listeners@.len(),
                    listeners@ == slot.async_listeners@.take(i as int),
                decreases slot.async_listeners@.len() - i,
            {
                listeners.push(slot.async_listeners[i]);
                proof {
                    assert(listeners@ =~= slot.async_listeners@.take(i + 1));
                }
                i = i + 1;
            }
            proof {
                assert(slot.async_listeners@.take(i as int) =~= slot.async_listeners@);
            }
        }
        let async_count = listeners.len();
        let ghost front = listeners@;
        let mut k: usize = 0;
        while k < slot.sync_listeners.len()
            invariant
                k <= slot.sync_listeners@.len(),
                listeners@ == front + slot.sync_listeners@.take(k as int),
            decreases slot.sync_listeners@.len() - k,
        {
            listeners.push(slot.sync_listeners[k]);
            proof {
                assert(listeners@ =~= front + slot.sync_listeners@.take(k + 1));
            }
            k = k + 1;
        }
        proof {
            assert(slot.sync_listeners@.take(k as int) =~= slot.sync_listeners@);
            if !spawn_async {
                assert(front =~= Seq::<ListenerEntry>::empty());
            }
            assert(listeners@ =~= (if spawn_async {
                slot.async_listeners@
            } else {
                Seq::empty()
            }) + slot.sync_listeners@);
        }
        LaneRun { listeners, async_count, pos: 0, once_ran: Vec::new(), ran: Ghost(Seq::empty()) }
    }

    /// A delivery to the dead-letter listeners of `slot`.
    pub fn for_dead_letters(slot: &DeadLetterSlot) -> (r: LaneRun)
        ensures
            r.wf(),
            r.listeners() == slot.listeners@,
            r.async_count() == 0,
            r.ran() == Seq::<bool>::empty(),
    {
        let mut listeners: Vec<ListenerEntry> = Vec::new();
        let mut i: usize = 0;
        while i < slot.listeners.len()
            invariant
                i <= slot.listeners@.len(),
                listeners@ == slot.listeners@.take(i as int),
            decreases slot.listeners@.len() - i,
        {
            listeners.push(slot.listeners[i]);
            proof {
                assert(listeners@ =~= slot.listeners@.take(i + 1));
            }
            i = i + 1;
        }
        proof {
            assert(slot.listeners@.take(i as int) =~= slot.listeners@);
        }
        LaneRun { listeners, async_count: 0, pos: 0, once_ran: Vec::new(), ran: Ghost(Seq::empty()) }
    }

    /// The next listener to visit, and whether it is async; `None` once
    /// every listener was visited.
    pub fn next(&self) -> (r: Option<(ListenerEntry, bool)>)
        requires
            self.wf(),
        ensures
            self.ran().len() < self.listeners().len() ==> r == Some(
                (
                    self.listeners()[self.ran().len() as int],
                    self.ran().len() < self.async_count(),
                ),
            ),
            self.ran().len() == self.listeners().len() ==> r is None,
    {
        if self.pos < self.listeners.len() {
            Some((self.listeners[self.pos], self.pos < self.async_count))
        } else {
            None
        }
    }

    /// Whether the next listener fires, given the outcome of its claim on
    /// its fired flag (see [`should_fire_once`]).
    pub fn fires(&self, claimed: Option<bool>) -> (r: bool)
        requires
            self.wf(),
            self.ran().len() < self.listeners().len(),
        ensures
            r == fire_decision(self.listeners()[self.ran().len() as int].once, claimed),
    {
        should_fire_once(self.listeners[self.pos].once, claimed)
    }

    /// Records whether the next listener ran (fired, and for an async one
    /// was scheduled) and moves past it.
    pub fn record(&mut self, ran: bool)
        requires
            old(self).wf(),
            old(self).ran().len() < old(self).listeners().len(),
        ensures
            final(self).wf(),
            final(self).listeners() == old(self).listeners(),
            final(self).async_count() == old(self).async_count(),
            final(self).ran() == old(self).ran().push(ran),
    {
        let p = self.pos;
        let n = self.listeners.len();
        assert(p < n);
        let l = self.listeners[p];
        let ghost before = self.ran@;
        if ran && l.once {
            self.once_ran.push(l.id);
        }
        self.ran = Ghost(self.ran@.push(ran));
        self.pos = p + 1;
        proof {
            assert(self.ran@.drop_last() =~= before);
        }
    }

    /// The fire-once listeners that ran, in the order they ran.
    pub fn once_ran(&self) -> (r: Vec<SubscriptionId>)
        requires
            self.wf(),
        ensures
            r@ == removed_ids(self.listeners(), self.ran()),
    {
        self.once_ran.clone()
    }
}

/// Every listener named for removal is a fire-once listener that ran.
pub proof fn law_removed_are_once_and_ran(ls: Seq<ListenerEntry>, ran: Seq<bool>, k: int)
    requires
        ran.len() <= ls.len(),
        0 <= k < removed_ids(ls, ran).len(),
    ensures
        exists|i: int|
            0 <= i < ran.len() && ran[i] && ls[i].once && ls[i].id == #[trigger] removed_ids(
                ls,
                ran,
            )[k],
    decreases ran.len(),
{
    let i = ran.len() - 1;
    let prev = removed_ids(ls, ran.drop_last());
    if ran[i] && ls[i].once && k == prev.len() {
        assert(removed_ids(ls, ran)[k] == ls[i].id);
    } else {
        law_removed_are_once_and_ran(ls, ran.drop_last(), k);
        let j = choose|j: int|
            0 <= j < ran.drop_last().len() && ran.drop_last()[j] && ls[j].once && ls[j].id
                == #[trigger] removed_ids(ls, ran.drop_last())[k];
        assert(ran[j] == ran.drop_last()[j]);
    }
}

/// A fire-once listener that ran is named for removal.
pub proof fn law_once_ran_is_removed(ls: Seq<ListenerEntry>, ran: Seq<bool>, i: int)
    requires
        ran.len() <= ls.len(),
        0 <= i < ran.len(),
        ran[i],
        ls[i].once,
    ensures
        removed_ids(ls, ran).contains(ls[i].id),
    decreases ran.len(),
{
    let last = ran.len() - 1;
    if i == last {
        assert(removed_ids(ls, ran).last() == ls[i].id);
    } else {
        law_once_ran_is_removed(ls, ran.drop_last(), i);
        let prev = removed_ids(ls, ran.drop_last());
        let k = choose|k: int| 0 <= k < prev.len() && prev[k] == ls[i].id;
        if ran[last] && ls[last].once {
            assert(removed_ids(ls, ran)[k] == prev[k]);
        }
    }
}

// ── Failures and dead letters ─────────────────────────────────────────────

/// A listener that failed for good.
pub struct ListenerFailure<P> {
    /// Name of the event type.
    pub event_name: &'static str,
    /// Key of the event type.
    pub event_type: u64,
    /// The failing subscription.
    pub subscription_id: SubscriptionId,
    /// Attempts made, the first one included.
    pub attempts: usize,
    /// The error of the last attempt.
    pub error: String,
    /// Whether the listener's policy asks for a dead letter.
    pub dead_letter: bool,
    /// The event payload.
    pub event: P,
    /// Name of the failing handler, if it has one.
    pub handler_name: Option<&'static str>,
}

/// A dead-letter record: a handler exhausted its attempts.
pub struct DeadLetter<P> {
    /// Name of the event type that failed.
    pub event_name: &'static str,
    /// The subscription that failed.
    pub subscription_id: SubscriptionId,
    /// Attempts made, the first one included.
    pub attempts: usize,
    /// The error of the last attempt.
    pub error: String,
    /// The event payload that failed.
    pub event: P,
    /// When the terminal failure occurred, as a span since the Unix epoch.
    pub failed_at: Duration,
    /// Name of the failing handler, if it has one.
    pub handler_name: Option<&'static str>,
}

/// The failure of a sync listener: its single attempt failed with `err`.
pub fn sync_listener_failed<P>(
    listener: &ListenerEntry,
    event_name: &'static str,
    event_type: u64,
    event: P,
    err: String,
) -> (r: ListenerFailure<P>)
    requires
        listener.policy is Sync,
    ensures
        r.event_name == event_name,
        r.event_type == event_type,
        r.subscription_id == listener.id,
        r.attempts == 1,
        r.error == err,
        r.dead_letter == listener.policy->Sync_0.dead_letter,
        r.event == event,
        r.handler_name == listener.name,
{
    let dead_letter = match listener.policy {
        ListenerPolicy::Sync(p) => p.dead_letter,
        ListenerPolicy::Async(p) => p.dead_letter,
    };
    ListenerFailure {
        event_name,
        event_type,
        subscription_id: listener.id,
        attempts: 1,
        error: err,
        dead_letter,
        event,
        handler_name: listener.name,
    }
}

/// Whether a failure becomes a dead letter: the policy asks for one and the
/// failed event is not itself a dead letter.
pub open spec fn emits_dead_letter<P>(f: ListenerFailure<P>) -> bool {
    f.dead_letter && f.event_type != DEAD_LETTER_EVENT
}

/// The dead letter a failure produces, stamped `failed_at`, if any.
pub fn dead_letter_from_failure<P>(failure: ListenerFailure<P>, failed_at: Duration) -> (r: Option<
    DeadLetter<P>,
>)
    ensures
        r is Some <==> emits_dead_letter(failure),
        r matches Some(d) ==> d.event_name == failure.event_name && d.subscription_id
            == failure.subscription_id && d.attempts == failure.attempts && d.error
            == failure.error && d.event == failure.event && d.failed_at == failed_at
            && d.handler_name == failure.handler_name,
{
    if failure.dead_letter && failure.event_type != DEAD_LETTER_EVENT {
        Some(
            DeadLetter {
                event_name: failure.event_name,
                subscription_id: failure.subscription_id,
                attempts: failure.attempts,
                error: failure.error,
                event: failure.event,
                failed_at,
                handler_name: failure.handler_name,
            },
        )
    } else {
        None
    }
}

/// Whether a failure becomes a dead letter depends on its policy flag and
/// its event type alone: a failure with dead letters enabled on an event
/// that is not itself a dead letter produces one, whatever the number of
/// attempts made or the error, and no other failure does. Failures that
/// differ only in their attempts and error agree.
pub proof fn law_dead_letter_emission<P>(f: ListenerFailure<P>, g: ListenerFailure<P>)
    requires
        g.dead_letter == f.dead_letter,
        g.event_type == f.event_type,
    ensures
        emits_dead_letter(f) == emits_dead_letter(g),
        (f.dead_letter && f.event_type != DEAD_LETTER_EVENT) ==> emits_dead_letter(f),
        !f.dead_letter ==> !emits_dead_letter(f),
{
}

/// A failing dead-letter listener never produces another dead letter.
pub proof fn law_dead_letters_do_not_cascade<P>(f: ListenerFailure<P>)
    requires
        f.event_type == DEAD_LETTER_EVENT,
    ensures
        !emits_dead_letter(f),
{
}

} // verus!
