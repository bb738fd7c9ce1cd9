//! Bookkeeping of the async listener tasks a bus runs, and the decisions
//! of a shutdown.
use vstd::prelude::*;

use crate::dispatch::{
    begin_spec, close_spec, law_close_refuses_later_publishes, law_closed_is_final, state_closed,
    state_count,
};
use crate::error::EventBusError;

verus! {

/// The answer to a request to start a tracked task.
#[derive(Debug, Clone, Copy, PartialEq, Eq, Structural)]
pub enum TaskAdmission {
    /// Started; its abort handle is kept under this identifier.
    Kept(u64),
    /// Started; abort handles are not kept.
    Untracked,
    /// Refused: the bus no longer starts tasks.
    Refused,
}

/// Counts the async tasks in flight and, where asked to, the identifiers
/// under which their abort handles are kept.
pub struct TaskLedger {
    next_id: u64,
    in_flight: usize,
    ids: Vec<u64>,
    track: bool,
    rejecting: bool,
}

impl TaskLedger {
    /// Tasks in flight.
    pub closed spec fn count(self) -> nat {
        self.in_flight as nat
    }

    /// Identifiers of the tracked tasks in flight, in start order.
    pub closed spec fn ids(self) -> Seq<u64> {
        self.ids@
    }

    /// Whether abort handles are kept.
    pub closed spec fn tracks(self) -> bool {
        self.track
    }

    /// Whether new tasks are refused.
    pub closed spec fn rejects(self) -> bool {
        self.rejecting
    }

    /// The next identifier to hand out.
    pub closed spec fn next(self) -> u64 {
        self.next_id
    }

    /// The ledger's invariant: the identifiers kept are distinct and below
    /// the next one; none is kept without tracking.
    pub closed spec fn wf(self) -> bool {
        &&& !self.track ==> self.ids@.len() == 0
        &&& forall|i: int| 0 <= i < self.ids@.len() ==> self.ids@[i] < self.next_id
        &&& forall|i: int, j: int| 0 <= i < j < self.ids@.len() ==> self.ids@[i] != self.ids@[j]
        &&& self.next_id >= 1
    }

    /// An empty ledger; `track` says whether abort handles are kept.
    pub fn new(track: bool) -> (r: TaskLedger)
        ensures
            r.wf(),
            r.count() == 0,
            r.ids() == Seq::<u64>::empty(),
            r.tracks() == track,
            !r.rejects(),
            r.next() == 1,
    {
        TaskLedger { next_id: 1, in_flight: 0, ids: Vec::new(), track, rejecting: false }
    }

    /// Tasks in flight.
    pub fn in_flight(&self) -> (r: usize)
        ensures
            r == self.count(),
    {
        self.in_flight
    }

    /// Whether another task can be counted and given an identifier.
    pub fn can_begin(&self) -> (r: bool)
        ensures
            r == (self.count() < usize::MAX && self.next() < u64::MAX),
    {
        self.in_flight < usize::MAX && self.next_id < u64::MAX
    }

    /// Asks to start a task: refused once new tasks are rejected; counted
    /// otherwise, with a fresh identifier where abort handles are kept.
    pub fn begin(&mut self) -> (r: TaskAdmission)
        requires
            old(self).wf(),
            old(self).count() < usize::MAX,
            old(self).next() < u64::MAX,
        ensures
            final(self).wf(),
            final(self).tracks() == old(self).tracks(),
            final(self).rejects() == old(self).rejects(),
            old(self).rejects() ==> r == TaskAdmission::Refused && *final(self) == *old(self),
            !old(self).rejects() && old(self).tracks() ==> {
                &&& r == TaskAdmission::Kept(old(self).next())
                &&& final(self).count() == old(self).count() + 1
                &&& final(self).ids() == old(self).ids().push(old(self).next())
                &&& final(self).next() == old(self).next() + 1
            },
            !old(self).rejects() && !old(self).tracks() ==> {
                &&& r == TaskAdmission::Untracked
                &&& final(self).count() == old(self).count() + 1
                &&& final(self).ids() == old(self).ids()
                &&& final(self).next() == old(self).next()
            },
    {
        if self.rejecting {
            return TaskAdmission::Refused;
        }
        self.in_flight = self.in_flight + 1;
        if self.track {
            let id = self.next_id;
            self.ids.push(id);
            self.next_id = id + 1;
            TaskAdmission::Kept(id)
        } else {
            TaskAdmission::Untracked
        }
    }

    /// Records that a task ended; `admission` is what
    /// [`begin`](TaskLedger::begin) answered for it. Its identifier, if still
    /// kept, is forgotten. Returns whether it was the last task in flight.
    pub fn finish(&mut self, admission: TaskAdmission) -> (r: bool)
        requires
            old(self).wf(),
            old(self).count() > 0,
        ensures
            final(self).wf(),
            final(self).count() == old(self).count() - 1,
            final(self).tracks() == old(self).tracks(),
            final(self).rejects() == old(self).rejects(),
            final(self).next() == old(self).next(),
            r == (old(self).count() == 1),
            !(old(self).tracks() && admission is Kept) ==> final(self).ids() == old(self).ids(),
            old(self).tracks() ==> (admission matches TaskAdmission::Kept(id) ==> final(self).ids()
                == (if old(self).ids().contains(id) {
                old(self).ids().remove(old(self).ids().index_of(id))
            } else {
                old(self).ids()
            })),
    {
        let prev = self.in_flight;
        self.in_flight = prev - 1;
        if self.track {
            if let TaskAdmission::Kept(id) = admission {
                let ghost before = self.ids@;
                let mut k: usize = 0;
                while k < self.ids.len() && self.ids[k] != id
                    invariant
                        k <= self.ids@.len(),
                        self.ids@ == before,
                        forall|j: int| 0 <= j < k ==> self.ids@[j] != id,
                    decreases self.ids@.len() - k,
                {
                    k = k + 1;
                }
                if k < self.ids.len() {
                    proof {
                        assert(before[k as int] == id);
                        assert(before.contains(id));
                        assert forall|j: int| 0 <= j < before.len() && before[j] == id implies j
                            == k by {
                            if j != k {
                                if j < k {
                                    assert(before[j] != id);
                                } else {
                                    assert(before[k as int] != before[j]);
                                }
                            }
                        }
                        before.index_of_first_ensures(id);
                        assert(before.index_of(id) == k as int);
                    }
                    self.ids.remove(k);
                    proof {
                        assert forall|a: int, b: int|
                            0 <= a < b < self.ids@.len() implies self.ids@[a] != self.ids@[b] by {
                            let a2 = if a < k {
                                a
                            } else {
                                a + 1
                            };
                            let b2 = if b < k {
                                b
                            } else {
                                b + 1
                            };
                            assert(self.ids@[a] == before[a2]);
                            assert(self.ids@[b] == before[b2]);
                        }
                        assert forall|a: int| 0 <= a < self.ids@.len() implies self.ids@[a]
                            < self.next_id by {
                            let a2 = if a < k {
                                a
                            } else {
                                a + 1
                            };
                            assert(self.ids@[a] == before[a2]);
                        }
                    }
                } else {
                    proof {
                        assert(!before.contains(id)) by {
                            if before.contains(id) {
                                let w = choose|w: int| 0 <= w < before.len() && before[w] == id;
                                assert(before[w] != id);
                            }
                        }
                    }
                }
            }
        }
        prev == 1
    }

    /// Refuses every task asked for from now on.
    pub fn reject_new(&mut self)
        requires
            old(self).wf(),
        ensures
            final(self).wf(),
            final(self).rejects(),
            final(self).count() == old(self).count(),
            final(self).ids() == old(self).ids(),
            final(self).tracks() == old(self).tracks(),
            final(self).next() == old(self).next(),
    {
        self.rejecting = true;
    }

    /// Hands out the identifiers of the tracked tasks still in flight, to
    /// be aborted, and forgets them.
    pub fn abort_all(&mut self) -> (r: Vec<u64>)
        requires
            old(self).wf(),
        ensures
            final(self).wf(),
            r@ == old(self).ids(),
            final(self).ids() == Seq::<u64>::empty(),
            final(self).count() == old(self).count(),
            final(self).tracks() == old(self).tracks(),
            final(self).rejects() == old(self).rejects(),
            final(self).next() == old(self).next(),
    {
        let mut taken: Vec<u64> = Vec::new();
        std::mem::swap(&mut taken, &mut self.ids);
        taken
    }
}

/// Starting a tracked task and ending it leaves the identifiers kept as
/// they were.
pub proof fn law_begin_finish_restores(ids: Seq<u64>, id: u64)
    requires
        forall|i: int| 0 <= i < ids.len() ==> ids[i] < id,
    ensures
        ids.push(id).remove(ids.push(id).index_of(id)) == ids,
{
    let s = ids.push(id);
    s.index_of_first_ensures(id);
    assert(s[ids.len() as int] == id);
    assert forall|j: int| 0 <= j < ids.len() implies s[j] != id by {
        assert(s[j] == ids[j]);
    }
    assert(s.index_of(id) == ids.len() as int);
    assert(s.remove(ids.len() as int) =~= ids);
}

/// How long to wait for the tasks in flight once publishes are drained:
/// not at all where draining timed out, otherwise what remains of the
/// shutdown timeout.
#[derive(Debug, Clone, Copy, PartialEq, Eq, Structural)]
pub enum TaskWait {
    /// Abort what is left at once.
    Zero,
    /// Wait for the rest of the shutdown timeout, if any.
    Remaining,
}

/// The wait for tasks after publishes drained, or failed to
/// (`drain_timed_out`).
pub fn task_wait_after_drain(drain_timed_out: bool) -> (r: TaskWait)
    ensures
        r == (if drain_timed_out {
            TaskWait::Zero
        } else {
            TaskWait::Remaining
        }),
{
    if drain_timed_out {
        TaskWait::Zero
    } else {
        TaskWait::Remaining
    }
}

/// Whether waiting for tasks is needed at all: not when none is in flight.
pub fn must_wait_for_tasks(in_flight: usize) -> (r: bool)
    ensures
        r == (in_flight > 0),
{
    in_flight > 0
}

/// The answer of the shutdown that closed the bus: a timeout while
/// draining publishes or while waiting for tasks makes it
/// [`EventBusError::ShutdownTimeout`].
pub open spec fn shutdown_outcome(drain_timed_out: bool, tasks_timed_out: bool) -> Result<(), EventBusError> {
    if drain_timed_out || tasks_timed_out {
        Err(EventBusError::ShutdownTimeout)
    } else {
        Ok(())
    }
}

/// The result of a shutdown; see [`shutdown_outcome`].
pub fn shutdown_result(drain_timed_out: bool, tasks_timed_out: bool) -> (r: Result<(), EventBusError>)
    ensures
        r == shutdown_outcome(drain_timed_out, tasks_timed_out),
        (drain_timed_out || tasks_timed_out) ==> r == Err::<(), EventBusError>(
            EventBusError::ShutdownTimeout,
        ),
        !(drain_timed_out || tasks_timed_out) ==> r is Ok,
{
    if drain_timed_out || tasks_timed_out {
        Err(EventBusError::ShutdownTimeout)
    } else {
        Ok(())
    }
}

/// Shutdown in sequence: the first shutdown finds the bus open and closes
/// it, keeping the publishes in flight, and answers a timeout exactly when
/// draining or the task wait timed out; from then on the bus admits no
/// publish, and every later shutdown finds it closed, closes nothing and
/// answers `Ok`.
pub proof fn law_shutdown_sequence(state: u64, drain_timed_out: bool, tasks_timed_out: bool)
    requires
        !state_closed(state),
    ensures
        close_spec(state) matches Some(n) && state_closed(n) && state_count(n) == state_count(state)
            && begin_spec(n) == Err::<u64, EventBusError>(EventBusError::Stopped) && close_spec(n) is None,
        shutdown_outcome(drain_timed_out, tasks_timed_out) == (if drain_timed_out || tasks_timed_out {
            Err::<(), EventBusError>(EventBusError::ShutdownTimeout)
        } else {
            Ok::<(), EventBusError>(())
        }),
{
    law_close_refuses_later_publishes(state);
    let n = close_spec(state)->Some_0;
    law_closed_is_final(n);
}

} // verus!
