//! The scheduler: owns the thread table, decides which thread runs next, and
//! files the previously running thread according to the reason it stopped.
//!
//! Every operation is specified against [`SchedModel`], a mathematical image
//! of the scheduler's state, and the scheduling rules are single transition
//! functions on that model, so that properties of whole runs — FIFO order,
//! no lost wakeups, exited threads staying gone — can be stated and proved
//! over sequences of transitions.

use vstd::pervasive::unreached;
use vstd::prelude::*;

use crate::thread::SwitchReason;
use crate::thread::Thread;
use crate::thread::ThreadID;
use crate::thread::ThreadModel;

verus! {

/// Mathematical image of the scheduler state.
///
/// `ready` is the strict FIFO queue of threads eligible to run; `blocked`
/// holds threads waiting for a wake signal; `wakeups` holds wake signals not
/// yet consumed by their targets; `idle`, once set, never changes.
#[verifier::ext_equal]
pub ghost struct SchedModel {
    /// The thread table: identity value to thread record.
    pub threads: Map<u64, ThreadModel>,
    /// The identity of the one thread that is currently executing.
    pub current: u64,
    /// Identities eligible to run, first in first out.
    pub ready: Seq<u64>,
    /// Identities parked until a wake signal names them.
    pub blocked: Set<u64>,
    /// Wake signals delivered but not yet consumed.
    pub wakeups: Set<u64>,
    /// The fallback thread, run only when nothing else is ready.
    pub idle: Option<u64>,
}

/// The scheduler's invariant, with room for one thread in flight.
///
/// `paused` is `None` in a quiescent state; between the scheduling decision
/// and the completion callback it names the thread that is being switched
/// away from, whose saved stack pointer has not been recorded yet.
pub open spec fn inv_at(s: SchedModel, paused: Option<u64>) -> bool {
    &&& s.threads.dom().finite()
    &&& s.threads.contains_key(s.current)
    &&& s.threads[s.current].stack_pointer is None
    &&& forall|id: u64| #[trigger]
        s.threads.contains_key(id) ==> s.threads[id].id.as_u64() == id
    &&& forall|id: u64| #[trigger]
        s.threads.contains_key(id) && id != s.current && Some(id) != paused
            ==> s.threads[id].stack_pointer is Some
    &&& forall|i: int|
        0 <= i < s.ready.len() ==> s.threads.contains_key(#[trigger] s.ready[i]) && s.ready[i]
            != s.current && !s.blocked.contains(s.ready[i]) && Some(s.ready[i]) != s.idle
    &&& forall|i: int, j: int|
        0 <= i < j < s.ready.len() ==> #[trigger] s.ready[i] != #[trigger] s.ready[j]
    &&& forall|id: u64| #[trigger]
        s.blocked.contains(id) ==> s.threads.contains_key(id) && id != s.current && Some(id)
            != s.idle
    &&& match s.idle {
        Some(idle) => s.threads.contains_key(idle),
        None => true,
    }
    &&& match paused {
        Some(prev) => {
            &&& s.threads.contains_key(prev)
            &&& s.threads[prev].stack_pointer is None
            &&& prev != s.current
            &&& !s.ready.contains(prev)
            &&& !s.blocked.contains(prev)
        },
        None => true,
    }
}

/// The invariant of a quiescent scheduler: no switch in flight.
pub open spec fn inv(s: SchedModel) -> bool {
    inv_at(s, None)
}

/// The invariant in the middle of a switch away from `prev`.
pub open spec fn inv_mid(s: SchedModel, prev: u64) -> bool {
    inv_at(s, Some(prev))
}

/// The scheduling decision: the head of the ready queue; failing that, the
/// idle thread, unless it is already the one running; failing that, nothing
/// — the caller must not switch.
pub open spec fn sched_pick(s: SchedModel) -> Option<u64> {
    if s.ready.len() > 0 {
        Some(s.ready[0])
    } else if s.idle is Some && s.idle != Some(s.current) {
        s.idle
    } else {
        None
    }
}

/// The state after the picked thread has been marked running: it leaves the
/// ready queue, its saved stack pointer is consumed, and it becomes current.
/// Meaningful only when [`sched_pick`] finds a thread.
pub open spec fn sched_take(s: SchedModel) -> SchedModel {
    let next = sched_pick(s)->0;
    SchedModel {
        threads: s.threads.insert(
            next,
            ThreadModel { stack_pointer: None, ..s.threads[next] },
        ),
        current: next,
        ready: if s.ready.len() > 0 {
            s.ready.drop_first()
        } else {
            s.ready
        },
        ..s
    }
}

/// The state after the thread switched away from has reported back: its
/// stack pointer is recorded, and it is re-filed by the reason it stopped.
/// The idle thread is never queued or blocked; an exiting thread leaves the
/// table for good; a blocking thread with a pending wake signal goes
/// straight back to the ready queue.
pub open spec fn sched_park(s: SchedModel, sp: u64, id: u64, reason: SwitchReason) -> SchedModel {
    let stored = SchedModel {
        threads: s.threads.insert(id, ThreadModel { stack_pointer: Some(sp), ..s.threads[id] }),
        ..s
    };
    if s.idle == Some(id) {
        stored
    } else {
        match reason {
            SwitchReason::Paused | SwitchReason::Yield => SchedModel {
                ready: stored.ready.push(id),
                ..stored
            },
            SwitchReason::Blocked => if s.wakeups.contains(id) {
                SchedModel {
                    ready: stored.ready.push(id),
                    wakeups: stored.wakeups.remove(id),
                    ..stored
                }
            } else {
                SchedModel { blocked: stored.blocked.insert(id), ..stored }
            },
            SwitchReason::Exit => SchedModel { threads: s.threads.remove(id), ..s },
        }
    }
}

/// The state after a new thread is registered: it joins the table and the
/// back of the ready queue.
pub open spec fn sched_register(s: SchedModel, t: ThreadModel) -> SchedModel {
    SchedModel {
        threads: s.threads.insert(t.id.as_u64(), t),
        ready: s.ready.push(t.id.as_u64()),
        ..s
    }
}

/// The state after the idle thread is registered: it joins the table and is
/// remembered as the fallback, but never enters the ready queue.
pub open spec fn sched_register_idle(s: SchedModel, t: ThreadModel) -> SchedModel {
    SchedModel { threads: s.threads.insert(t.id.as_u64(), t), idle: Some(t.id.as_u64()), ..s }
}

/// The state after a wake signal for `id` arrives: a blocked target moves to
/// the back of the ready queue; any other target has the signal remembered
/// for the moment it blocks.
pub open spec fn sched_wake(s: SchedModel, id: u64) -> SchedModel {
    if s.blocked.contains(id) {
        SchedModel { blocked: s.blocked.remove(id), ready: s.ready.push(id), ..s }
    } else {
        SchedModel { wakeups: s.wakeups.insert(id), ..s }
    }
}

/// The scheduler: thread table, current thread, ready queue, blocked set,
/// pending wakeups, and the optional idle thread.
pub struct Scheduler {
    threads: std::collections::BTreeMap<u64, Thread>,
    idle_thread_id: Option<ThreadID>,
    current_thread_id: ThreadID,
    paused_threads: std::collections::VecDeque<u64>,
    blocked_threads: std::collections::BTreeSet<u64>,
    wakeups: std::collections::BTreeSet<u64>,
}

impl View for Scheduler {
    type V = SchedModel;

    closed spec fn view(&self) -> SchedModel {
        SchedModel {
            threads: self.threads@.map_values(|t: Thread| t@),
            current: self.current_thread_id.spec_as_u64(),
            ready: self.paused_threads@,
            blocked: self.blocked_threads@,
            wakeups: self.wakeups@,
            idle: match self.idle_thread_id {
                Some(idle) => Some(idle.spec_as_u64()),
                None => None,
            },
        }
    }
}

impl Scheduler {
    /// A scheduler for a system whose only thread so far is the root thread:
    /// identity `0`, currently executing, with no allocated stack of its own.
    pub fn new() -> (r: Scheduler)
        ensures
            inv(r@),
            r@.current == 0,
            r@.threads.dom() =~= set![0u64],
            r@.threads[0].id.as_u64() == 0,
            r@.threads[0].stack_pointer is None,
            r@.threads[0].stack_bounds is None,
            r@.ready =~= Seq::<u64>::empty(),
            r@.blocked =~= Set::<u64>::empty(),
            r@.wakeups =~= Set::<u64>::empty(),
            r@.idle is None,
    {
        let root_thread = Thread::create_root_thread();
        let root_id = root_thread.id();
        let mut threads = std::collections::BTreeMap::new();
        threads.insert(root_id.as_u64(), root_thread);

        let r = Scheduler {
            threads,
            current_thread_id: root_id,
            paused_threads: std::collections::VecDeque::new(),
            blocked_threads: std::collections::BTreeSet::new(),
            wakeups: std::collections::BTreeSet::new(),
            idle_thread_id: None,
        };
        proof {
            assert(r@.threads.dom() =~= set![0u64]);
        }
        r
    }

    /// Decides the next thread to run and marks it running.
    ///
    /// Picks the head of the ready queue, or the idle thread when the queue
    /// is empty and something else is running; returns its saved stack
    /// pointer together with the identity of the thread being replaced, so
    /// the control-transfer primitive's completion callback knows which
    /// record to update.  Returns `None` — and changes nothing — when there
    /// is nothing to switch to.
    pub fn schedule(&mut self) -> (r: Option<(u64, ThreadID)>)
        requires
            inv(old(self)@),
        ensures
            match r {
                Some(pair) => {
                    &&& sched_pick(old(self)@) is Some
                    &&& pair.1.as_u64() == old(self)@.current
                    &&& old(self)@.threads[sched_pick(old(self)@)->0].stack_pointer == Some(pair.0)
                    &&& final(self)@ == sched_take(old(self)@)
                    &&& inv_mid(final(self)@, pair.1.as_u64())
                },
                None => {
                    &&& sched_pick(old(self)@) is None
                    &&& final(self)@ == old(self)@
                    &&& inv(final(self)@)
                },
            },
    {
        let popped = self.paused_threads.pop_front();
        let next_id_opt: Option<u64> = match popped {
            Some(id) => Some(id),
            None => match self.idle_thread_id {
                Some(idle) => {
                    if idle.as_u64() != self.current_thread_id.as_u64() {
                        Some(idle.as_u64())
                    } else {
                        None
                    }
                },
                None => None,
            },
        };
        match next_id_opt {
            Some(next_id) => {
                let mut next_thread = match self.threads.remove(&next_id) {
                    Some(t) => t,
                    None => unreached(),
                };
                let next_stack_pointer = next_thread.take_stack_pointer();
                let next_tid = next_thread.id();
                self.threads.insert(next_id, next_thread);
                let prev_thread_id = self.current_thread_id;
                self.current_thread_id = next_tid;
                proof {
                    assert(self@.threads =~= sched_take(old(self)@).threads);
                    assert(self@.ready =~= sched_take(old(self)@).ready);
                    assert(self@ =~= sched_take(old(self)@));
                }
                Some((next_stack_pointer, prev_thread_id))
            },
            None => {
                proof {
                    assert(self@ =~= old(self)@);
                }
                None
            },
        }
    }

    /// Whether a scheduling decision would find a thread to switch to:
    /// something is ready, or the idle thread is set and not already
    /// running.  Exiting the current thread is only allowed while this
    /// holds.
    pub fn has_switch_target(&self) -> (r: bool)
        ensures
            r == (sched_pick(self@) is Some),
    {
        if self.paused_threads.len() > 0 {
            true
        } else {
            match self.idle_thread_id {
                Some(idle) => idle.as_u64() != self.current_thread_id.as_u64(),
                None => false,
            }
        }
    }

    /// Whether a thread with this identity is in the thread table.
    pub fn contains_thread(&self, thread_id: ThreadID) -> (r: bool)
        ensures
            r == self@.threads.contains_key(thread_id.as_u64()),
    {
        self.threads.contains_key(&thread_id.as_u64())
    }

    /// Whether this thread is parked in the blocked set.
    pub fn is_blocked(&self, thread_id: ThreadID) -> (r: bool)
        ensures
            r == self@.blocked.contains(thread_id.as_u64()),
    {
        self.blocked_threads.contains(&thread_id.as_u64())
    }

    /// Whether a wake signal for this thread is pending, delivered but not
    /// yet consumed.
    pub fn has_pending_wakeup(&self, thread_id: ThreadID) -> (r: bool)
        ensures
            r == self@.wakeups.contains(thread_id.as_u64()),
    {
        self.wakeups.contains(&thread_id.as_u64())
    }

    /// How many threads are waiting in the ready queue.
    pub fn ready_count(&self) -> (r: usize)
        ensures
            r == self@.ready.len(),
    {
        self.paused_threads.len()
    }

    /// The identity of the thread that is currently executing.
    pub fn current_thread_id(&self) -> (r: ThreadID)
        ensures
            r.as_u64() == self@.current,
    {
        self.current_thread_id
    }

    /// Completion callback of a context switch: records the saved stack
    /// pointer of the thread switched away from, then files it by the reason
    /// it stopped, per [`sched_park`].
    pub fn add_paused_thread(
        &mut self,
        paused_stack_pointer: u64,
        paused_thread_id: ThreadID,
        switch_reason: SwitchReason,
    )
        requires
            inv_mid(old(self)@, paused_thread_id.as_u64()),
        ensures
            final(self)@ == sched_park(
                old(self)@,
                paused_stack_pointer,
                paused_thread_id.as_u64(),
                switch_reason,
            ),
            inv(final(self)@),
    {
        let id_value = paused_thread_id.as_u64();
        let mut paused_thread = match self.threads.remove(&id_value) {
            Some(t) => t,
            None => unreached(),
        };
        paused_thread.store_stack_pointer(paused_stack_pointer);

        let is_idle = match self.idle_thread_id {
            Some(idle) => idle.as_u64() == id_value,
            None => false,
        };
        if is_idle {
            self.threads.insert(id_value, paused_thread);
            proof {
                assert(self@.threads =~= sched_park(
                    old(self)@,
                    paused_stack_pointer,
                    id_value,
                    switch_reason,
                ).threads);
                assert(self@ =~= sched_park(
                    old(self)@,
                    paused_stack_pointer,
                    id_value,
                    switch_reason,
                ));
            }
            return ;
        }

        match switch_reason {
            SwitchReason::Paused | SwitchReason::Yield => {
                self.threads.insert(id_value, paused_thread);
                self.paused_threads.push_back(id_value);
                proof {
                    assert(self@.threads =~= sched_park(
                        old(self)@,
                        paused_stack_pointer,
                        id_value,
                        switch_reason,
                    ).threads);
                    assert(self@ =~= sched_park(
                        old(self)@,
                        paused_stack_pointer,
                        id_value,
                        switch_reason,
                    ));
                }
            },
            SwitchReason::Blocked => {
                self.threads.insert(id_value, paused_thread);
                self.blocked_threads.insert(id_value);
                self.check_for_wakeup(paused_thread_id);
                proof {
                    assert(self@.threads =~= sched_park(
                        old(self)@,
                        paused_stack_pointer,
                        id_value,
                        switch_reason,
                    ).threads);
                    if old(self)@.wakeups.contains(id_value) {
                        assert(self@.blocked =~= old(self)@.blocked);
                        assert(self@.wakeups =~= old(self)@.wakeups.remove(id_value));
                    }
                    assert(self@ =~= sched_park(
                        old(self)@,
                        paused_stack_pointer,
                        id_value,
                        switch_reason,
                    ));
                }
            },
            SwitchReason::Exit => {
                proof {
                    assert(self@.threads =~= sched_park(
                        old(self)@,
                        paused_stack_pointer,
                        id_value,
                        switch_reason,
                    ).threads);
                    assert(self@ =~= sched_park(
                        old(self)@,
                        paused_stack_pointer,
                        id_value,
                        switch_reason,
                    ));
                }
            },
        }
    }

    /// Consumes a pending wake signal for a thread that has just blocked: if
    /// one is waiting, the thread leaves the blocked set again at once and
    /// joins the back of the ready queue.
    fn check_for_wakeup(&mut self, thread_id: ThreadID)
        requires
            old(self)@.wakeups.contains(thread_id.as_u64()) ==> old(self)@.blocked.contains(
                thread_id.as_u64(),
            ),
        ensures
            final(self)@ == (if old(self)@.wakeups.contains(thread_id.as_u64()) {
                SchedModel {
                    blocked: old(self)@.blocked.remove(thread_id.as_u64()),
                    wakeups: old(self)@.wakeups.remove(thread_id.as_u64()),
                    ready: old(self)@.ready.push(thread_id.as_u64()),
                    ..old(self)@
                }
            } else {
                old(self)@
            }),
    {
        let id_value = thread_id.as_u64();
        if self.wakeups.remove(&id_value) {
            self.blocked_threads.remove(&id_value);
            self.paused_threads.push_back(id_value);
            proof {
                assert(self@ =~= SchedModel {
                    blocked: old(self)@.blocked.remove(id_value),
                    wakeups: old(self)@.wakeups.remove(id_value),
                    ready: old(self)@.ready.push(id_value),
                    ..old(self)@
                });
            }
        } else {
            proof {
                assert(self@ =~= old(self)@);
            }
        }
    }

    /// Registers a freshly built thread: it joins the thread table and the
    /// back of the ready queue.
    pub fn add_new_thread(&mut self, thread: Thread)
        requires
            inv(old(self)@),
            !old(self)@.threads.contains_key(thread.id().as_u64()),
            thread.spec_stack_pointer() is Some,
        ensures
            final(self)@ == sched_register(old(self)@, thread@),
            inv(final(self)@),
    {
        let thread_id = thread.id().as_u64();
        self.threads.insert(thread_id, thread);
        self.paused_threads.push_back(thread_id);
        proof {
            assert(self@.threads =~= sched_register(old(self)@, thread@).threads);
            assert(self@ =~= sched_register(old(self)@, thread@));
        }
    }

    /// Registers the idle thread, the fallback run only when nothing else is
    /// ready.  May be called at most once per scheduler lifetime, and the
    /// registered thread never enters the ready queue or the blocked set.
    pub fn set_idle_thread(&mut self, thread: Thread)
        requires
            inv(old(self)@),
            !old(self)@.threads.contains_key(thread.id().as_u64()),
            thread.spec_stack_pointer() is Some,
            old(self)@.idle is None,
        ensures
            final(self)@ == sched_register_idle(old(self)@, thread@),
            inv(final(self)@),
    {
        let thread_id = thread.id();
        self.threads.insert(thread_id.as_u64(), thread);
        self.idle_thread_id = Some(thread_id);
        proof {
            assert(self@.threads =~= sched_register_idle(old(self)@, thread@).threads);
            assert(self@ =~= sched_register_idle(old(self)@, thread@));
        }
    }

    /// Delivers a wake signal for `thread_id`: a blocked target becomes
    /// ready at the back of the queue; for any other target the signal is
    /// remembered and takes effect the moment that thread blocks, so no
    /// wakeup is ever lost.
    pub fn wake(&mut self, thread_id: ThreadID)
        requires
            inv(old(self)@),
        ensures
            final(self)@ == sched_wake(old(self)@, thread_id.as_u64()),
            inv(final(self)@),
    {
        let id_value = thread_id.as_u64();
        if self.blocked_threads.remove(&id_value) {
            self.paused_threads.push_back(id_value);
            proof {
                assert(self@ =~= sched_wake(old(self)@, id_value));
            }
        } else {
            self.wakeups.insert(id_value);
            proof {
                assert(self@ =~= sched_wake(old(self)@, id_value));
            }
        }
    }
}

/// What the control-transfer primitive must do next: resume the thread whose
/// saved stack pointer is `next_stack_pointer`, and report
/// `(saved stack pointer, prev_thread_id, reason)` back through
/// [`Scheduler::add_paused_thread`] once the outgoing thread's registers are
/// saved.
pub struct SwitchPlan {
    /// Saved stack pointer of the thread to resume.
    pub next_stack_pointer: u64,
    /// Identity of the thread being switched away from.
    pub prev_thread_id: ThreadID,
    /// Why the outgoing thread stopped; decides how it is re-filed.
    pub reason: SwitchReason,
}

/// What a completed scheduling decision guarantees: the scheduler took the
/// picked thread, the plan carries that thread's saved stack pointer and the
/// identity of the outgoing thread, and the outgoing thread is the one still
/// unaccounted for until the plan's callback runs.
pub open spec fn switch_planned(
    pre: SchedModel,
    post: SchedModel,
    plan: SwitchPlan,
    reason: SwitchReason,
) -> bool {
    &&& sched_pick(pre) is Some
    &&& plan.reason == reason
    &&& plan.prev_thread_id.as_u64() == pre.current
    &&& pre.threads[sched_pick(pre)->0].stack_pointer == Some(plan.next_stack_pointer)
    &&& post == sched_take(pre)
    &&& inv_mid(post, plan.prev_thread_id.as_u64())
}

/// A voluntary yield: decides the next thread, to be resumed with the
/// outgoing thread re-filed at the back of the ready queue.  Returns `None`
/// — and changes nothing — when nothing else is ready, in which case the
/// caller simply keeps running.
pub fn yield_now(scheduler: &mut Scheduler) -> (r: Option<SwitchPlan>)
    requires
        inv(old(scheduler)@),
    ensures
        match r {
            Some(plan) => switch_planned(old(scheduler)@, final(scheduler)@, plan, SwitchReason::Yield),
            None => {
                &&& sched_pick(old(scheduler)@) is None
                &&& final(scheduler)@ == old(scheduler)@
                &&& inv(final(scheduler)@)
            },
        },
{
    match scheduler.schedule() {
        Some((next_stack_pointer, prev_thread_id)) => Some(
            SwitchPlan { next_stack_pointer, prev_thread_id, reason: SwitchReason::Yield },
        ),
        None => None,
    }
}

/// Termination of the calling thread: decides the next thread, to be resumed
/// with the outgoing thread removed from the thread table for good.
///
/// Exiting the last remaining thread is unrecoverable, so a switch target —
/// a non-empty ready queue, or an idle thread other than the caller — is a
/// precondition, not a runtime case.
pub fn exit_thread(scheduler: &mut Scheduler) -> (r: SwitchPlan)
    requires
        inv(old(scheduler)@),
        sched_pick(old(scheduler)@) is Some,
    ensures
        switch_planned(old(scheduler)@, final(scheduler)@, r, SwitchReason::Exit),
{
    match scheduler.schedule() {
        Some((next_stack_pointer, prev_thread_id)) => SwitchPlan {
            next_stack_pointer,
            prev_thread_id,
            reason: SwitchReason::Exit,
        },
        None => unreached(),
    }
}

/// The timer-interrupt path: at most one context switch per invocation, a
/// no-op when nothing else is ready; the outgoing thread is re-filed at the
/// back of the ready queue as preempted.
pub fn invoke_scheduler(scheduler: &mut Scheduler) -> (r: Option<SwitchPlan>)
    requires
        inv(old(scheduler)@),
    ensures
        match r {
            Some(plan) => switch_planned(
                old(scheduler)@,
                final(scheduler)@,
                plan,
                SwitchReason::Paused,
            ),
            None => {
                &&& sched_pick(old(scheduler)@) is None
                &&& final(scheduler)@ == old(scheduler)@
                &&& inv(final(scheduler)@)
            },
        },
{
    match scheduler.schedule() {
        Some((next_stack_pointer, prev_thread_id)) => Some(
            SwitchPlan { next_stack_pointer, prev_thread_id, reason: SwitchReason::Paused },
        ),
        None => None,
    }
}

} // verus!
