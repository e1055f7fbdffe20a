//! System-wide scheduling laws, proved over the scheduler's model.
//!
//! A whole run of the system is a sequence of abstract operations — complete
//! context-switch rounds, wake signals, registrations — each of which the
//! scheduler's executable operations are proved to implement exactly.  The
//! laws here quantify over such sequences: FIFO order under yields, the idle
//! thread's special place, exited threads staying gone, blocked threads
//! staying off the processor until woken, and wake signals never being lost.

use vstd::arithmetic::div_mod::lemma_add_mod_noop;
use vstd::arithmetic::div_mod::lemma_mod_add_multiples_vanish;
use vstd::arithmetic::div_mod::lemma_mod_bound;
use vstd::arithmetic::div_mod::lemma_small_mod;
use vstd::prelude::*;

use crate::thread::SwitchReason;
use crate::thread::ThreadModel;
use crate::thread_scheduler::SchedModel;
use crate::thread_scheduler::inv;
use crate::thread_scheduler::inv_mid;
use crate::thread_scheduler::sched_park;
use crate::thread_scheduler::sched_pick;
use crate::thread_scheduler::sched_register;
use crate::thread_scheduler::sched_register_idle;
use crate::thread_scheduler::sched_take;
use crate::thread_scheduler::sched_wake;

verus! {

/// One abstract operation of the surrounding system.
pub ghost enum SchedOp {
    /// A complete context switch: the decision, the transfer, and the
    /// completion callback with the outgoing thread's saved stack pointer
    /// and the reason it stopped.  A round in a state with nothing to switch
    /// to changes nothing.
    Round { reason: SwitchReason, saved_stack_pointer: u64 },
    /// An external wake signal for the thread with this identity value.
    Wake { id: u64 },
    /// Registration of a new thread.
    Register { thread: ThreadModel },
    /// Registration of the idle thread.
    RegisterIdle { thread: ThreadModel },
}

/// What one abstract operation does to the scheduler state.
pub open spec fn op_step(s: SchedModel, op: SchedOp) -> SchedModel {
    match op {
        SchedOp::Round { reason, saved_stack_pointer } => {
            if sched_pick(s) is Some {
                sched_park(sched_take(s), saved_stack_pointer, s.current, reason)
            } else {
                s
            }
        },
        SchedOp::Wake { id } => sched_wake(s, id),
        SchedOp::Register { thread } => sched_register(s, thread),
        SchedOp::RegisterIdle { thread } => sched_register_idle(s, thread),
    }
}

/// The preconditions the executable operations demand of `op` in state `s`.
pub open spec fn op_valid(s: SchedModel, op: SchedOp) -> bool {
    match op {
        SchedOp::Round { .. } => true,
        SchedOp::Wake { .. } => true,
        SchedOp::Register { thread } => !s.threads.contains_key(thread.id.as_u64())
            && thread.stack_pointer is Some,
        SchedOp::RegisterIdle { thread } => !s.threads.contains_key(thread.id.as_u64())
            && thread.stack_pointer is Some && s.idle is None,
    }
}

/// The state after running a whole sequence of operations, oldest first.
pub open spec fn op_run(s: SchedModel, ops: Seq<SchedOp>) -> SchedModel
    decreases ops.len(),
{
    if ops.len() == 0 {
        s
    } else {
        op_run(op_step(s, ops[0]), ops.drop_first())
    }
}

/// Whether every operation of the sequence meets its precondition in the
/// state it runs in.
pub open spec fn ops_valid(s: SchedModel, ops: Seq<SchedOp>) -> bool
    decreases ops.len(),
{
    if ops.len() == 0 {
        true
    } else {
        op_valid(s, ops[0]) && ops_valid(op_step(s, ops[0]), ops.drop_first())
    }
}

/// Marking the picked thread as running leaves the scheduler mid-switch:
/// everything consistent but the outgoing thread not yet re-filed.
pub proof fn lemma_take_preserves_inv(s: SchedModel)
    requires
        inv(s),
        sched_pick(s) is Some,
    ensures
        inv_mid(sched_take(s), s.current),
        sched_take(s).current == sched_pick(s)->0,
        sched_take(s).current != s.current,
{
}

/// The completion callback restores the full invariant, whatever the reason
/// and whatever stack pointer the hardware reports.
pub proof fn lemma_park_preserves_inv(s: SchedModel, sp: u64, id: u64, reason: SwitchReason)
    requires
        inv_mid(s, id),
    ensures
        inv(sched_park(s, sp, id, reason)),
{
}

/// Every valid abstract operation preserves the scheduler invariant.
pub proof fn lemma_op_step_preserves_inv(s: SchedModel, op: SchedOp)
    requires
        inv(s),
        op_valid(s, op),
    ensures
        inv(op_step(s, op)),
{
    match op {
        SchedOp::Round { reason, saved_stack_pointer } => {
            if sched_pick(s) is Some {
                lemma_take_preserves_inv(s);
                lemma_park_preserves_inv(sched_take(s), saved_stack_pointer, s.current, reason);
            }
        },
        SchedOp::Wake { id } => {},
        SchedOp::Register { thread } => {},
        SchedOp::RegisterIdle { thread } => {},
    }
}

/// A whole valid run preserves the scheduler invariant.
pub proof fn lemma_op_run_preserves_inv(s: SchedModel, ops: Seq<SchedOp>)
    requires
        inv(s),
        ops_valid(s, ops),
    ensures
        inv(op_run(s, ops)),
    decreases ops.len(),
{
    if ops.len() > 0 {
        lemma_op_step_preserves_inv(s, ops[0]);
        lemma_op_run_preserves_inv(op_step(s, ops[0]), ops.drop_first());
    }
}

/// The idle thread stands apart: it is chosen only when the ready queue is
/// empty at the moment of scheduling, it is never found in the ready queue
/// or the blocked set, and no valid operation unsets it or removes it from
/// the thread table.
pub proof fn lemma_idle_thread_apart(s: SchedModel, idle: u64, op: SchedOp)
    requires
        inv(s),
        op_valid(s, op),
        s.idle == Some(idle),
    ensures
        sched_pick(s) == Some(idle) ==> s.ready.len() == 0,
        !s.ready.contains(idle),
        !s.blocked.contains(idle),
        op_step(s, op).idle == s.idle,
        op_step(s, op).threads.contains_key(idle),
{
    assert(!s.ready.contains(idle)) by {
        if s.ready.contains(idle) {
            let i = s.ready.index_of(idle);
            assert(Some(s.ready[i]) != s.idle);
        }
    }
    if s.ready.len() > 0 {
        assert(Some(s.ready[0]) != s.idle);
    }
    lemma_op_step_preserves_inv(s, op);
}

/// Once set, the idle thread stays set, unchanged and in the thread table,
/// across any valid run.
pub proof fn lemma_idle_fixed_across_run(s: SchedModel, ops: Seq<SchedOp>, idle: u64)
    requires
        inv(s),
        ops_valid(s, ops),
        s.idle == Some(idle),
    ensures
        inv(op_run(s, ops)),
        op_run(s, ops).idle == Some(idle),
        op_run(s, ops).threads.contains_key(idle),
    decreases ops.len(),
{
    lemma_idle_thread_apart(s, idle, if ops.len() > 0 {
        ops[0]
    } else {
        SchedOp::Wake { id: idle }
    });
    if ops.len() > 0 {
        lemma_op_step_preserves_inv(s, ops[0]);
        lemma_idle_fixed_across_run(op_step(s, ops[0]), ops.drop_first(), idle);
    }
}

/// A thread identity with no trace left in the scheduler: not in the thread
/// table, not ready, not blocked.
pub open spec fn absent(s: SchedModel, id: u64) -> bool {
    &&& !s.threads.contains_key(id)
    &&& !s.ready.contains(id)
    &&& !s.blocked.contains(id)
}

/// Whether this operation registers a thread under the identity value `id`.
pub open spec fn op_registers(op: SchedOp, id: u64) -> bool {
    match op {
        SchedOp::Register { thread } => thread.id.as_u64() == id,
        SchedOp::RegisterIdle { thread } => thread.id.as_u64() == id,
        _ => false,
    }
}

/// A round that exits a thread other than the idle thread removes it from
/// the thread table immediately: no trace of it is left.
pub proof fn lemma_exit_removes(s: SchedModel, saved_stack_pointer: u64)
    requires
        inv(s),
        sched_pick(s) is Some,
        s.idle != Some(s.current),
    ensures
        absent(
            op_step(s, SchedOp::Round { reason: SwitchReason::Exit, saved_stack_pointer }),
            s.current,
        ),
{
    let t = sched_take(s);
    let r = sched_park(t, saved_stack_pointer, s.current, SwitchReason::Exit);
    assert(!r.ready.contains(s.current)) by {
        if r.ready.contains(s.current) {
            let i = r.ready.index_of(s.current);
            if s.ready.len() > 0 {
                assert(r.ready[i] == s.ready[i + 1]);
            }
        }
    }
}

/// Once a thread identity is absent, any valid operation that does not
/// register it anew keeps it absent, and the scheduling decision never
/// chooses it.
pub proof fn lemma_absent_step(s: SchedModel, op: SchedOp, id: u64)
    requires
        inv(s),
        op_valid(s, op),
        absent(s, id),
        !op_registers(op, id),
    ensures
        inv(op_step(s, op)),
        absent(op_step(s, op), id),
        sched_pick(s) != Some(id),
{
    lemma_op_step_preserves_inv(s, op);
    if s.ready.len() > 0 {
        assert(s.ready.contains(s.ready[0]));
    }
    let r = op_step(s, op);
    assert(!r.ready.contains(id)) by {
        if r.ready.contains(id) {
            let i = r.ready.index_of(id);
            match op {
                SchedOp::Round { reason, saved_stack_pointer } => {
                    if sched_pick(s) is Some {
                        if s.ready.len() > 0 && i < s.ready.len() - 1 {
                            assert(s.ready.contains(s.ready[i + 1]));
                        }
                    }
                },
                SchedOp::Wake { id: w } => {
                    if i < s.ready.len() {
                        assert(s.ready.contains(s.ready[i]));
                    }
                },
                SchedOp::Register { thread } => {
                    if i < s.ready.len() {
                        assert(s.ready.contains(s.ready[i]));
                    }
                },
                SchedOp::RegisterIdle { thread } => {
                    assert(s.ready.contains(s.ready[i]));
                },
            }
        }
    }
}

/// A thread that exited stays gone: across any valid continuation of the
/// run in which no operation registers its identity anew, it never
/// reappears in the thread table, the ready queue or the blocked set, and
/// no scheduling decision along the way ever chooses it.
pub proof fn lemma_exited_never_scheduled(s: SchedModel, ops: Seq<SchedOp>, id: u64)
    requires
        inv(s),
        ops_valid(s, ops),
        absent(s, id),
        forall|i: int| 0 <= i < ops.len() ==> !op_registers(#[trigger] ops[i], id),
    ensures
        inv(op_run(s, ops)),
        absent(op_run(s, ops), id),
        forall|k: int|
            0 <= k < ops.len() ==> sched_pick(#[trigger] op_run(s, ops.take(k))) != Some(id),
    decreases ops.len(),
{
    if ops.len() > 0 {
        lemma_absent_step(s, ops[0], id);
        let s1 = op_step(s, ops[0]);
        let rest = ops.drop_first();
        lemma_exited_never_scheduled(s1, rest, id);
        assert forall|k: int| 0 <= k < ops.len() implies sched_pick(
            #[trigger] op_run(s, ops.take(k)),
        ) != Some(id) by {
            if k == 0 {
                assert(ops.take(0) =~= Seq::<SchedOp>::empty());
            } else {
                assert(ops.take(k).drop_first() =~= rest.take(k - 1));
                assert(op_run(s, ops.take(k)) == op_run(s1, rest.take(k - 1)));
            }
        }
    }
}

/// Whether this operation is a wake signal for the identity value `id`.
pub open spec fn op_wakes(op: SchedOp, id: u64) -> bool {
    match op {
        SchedOp::Wake { id: w } => w == id,
        _ => false,
    }
}

/// A blocked thread stays blocked across any valid operation that is not a
/// wake signal for it, and the scheduling decision never chooses it.
pub proof fn lemma_blocked_step(s: SchedModel, op: SchedOp, id: u64)
    requires
        inv(s),
        op_valid(s, op),
        s.blocked.contains(id),
        !op_wakes(op, id),
    ensures
        inv(op_step(s, op)),
        op_step(s, op).blocked.contains(id),
        op_step(s, op).threads.contains_key(id),
        sched_pick(s) != Some(id),
{
    lemma_op_step_preserves_inv(s, op);
    if s.ready.len() > 0 {
        assert(s.ready.contains(s.ready[0]));
        assert(!s.blocked.contains(s.ready[0]));
    }
}

/// A thread that blocked is not scheduled again until a wake signal names
/// it, no matter how many other threads yield, block, exit or register in
/// the meantime.
pub proof fn lemma_blocked_until_woken(s: SchedModel, ops: Seq<SchedOp>, id: u64)
    requires
        inv(s),
        ops_valid(s, ops),
        s.blocked.contains(id),
        forall|i: int| 0 <= i < ops.len() ==> !op_wakes(#[trigger] ops[i], id),
    ensures
        inv(op_run(s, ops)),
        op_run(s, ops).blocked.contains(id),
        forall|k: int|
            0 <= k < ops.len() ==> sched_pick(#[trigger] op_run(s, ops.take(k))) != Some(id),
    decreases ops.len(),
{
    if ops.len() > 0 {
        lemma_blocked_step(s, ops[0], id);
        let s1 = op_step(s, ops[0]);
        let rest = ops.drop_first();
        lemma_blocked_until_woken(s1, rest, id);
        assert forall|k: int| 0 <= k < ops.len() implies sched_pick(
            #[trigger] op_run(s, ops.take(k)),
        ) != Some(id) by {
            if k == 0 {
                assert(ops.take(0) =~= Seq::<SchedOp>::empty());
            } else {
                assert(ops.take(k).drop_first() =~= rest.take(k - 1));
                assert(op_run(s, ops.take(k)) == op_run(s1, rest.take(k - 1)));
            }
        }
    }
}

/// Whether, in state `s`, this operation is the thread with identity value
/// `id` blocking: a completed switch round that files the current thread —
/// `id`, and not the idle thread — as blocked.
pub open spec fn op_blocks(s: SchedModel, op: SchedOp, id: u64) -> bool {
    &&& op matches SchedOp::Round { reason: SwitchReason::Blocked, .. }
    &&& s.current == id
    &&& sched_pick(s) is Some
    &&& s.idle != Some(id)
}

/// A wake signal for a thread that is not blocked is remembered in the
/// pending set rather than dropped.
pub proof fn lemma_wake_remembered(s: SchedModel, id: u64)
    requires
        inv(s),
        !s.blocked.contains(id),
    ensures
        op_step(s, SchedOp::Wake { id }).wakeups.contains(id),
{
}

/// A pending wake signal is never lost: any valid operation either is the
/// moment its target blocks — in which case the target goes straight to the
/// back of the ready queue and the signal is consumed — or leaves the
/// signal pending.
pub proof fn lemma_pending_wakeup_step(s: SchedModel, op: SchedOp, id: u64)
    requires
        inv(s),
        op_valid(s, op),
        s.wakeups.contains(id),
    ensures
        inv(op_step(s, op)),
        op_blocks(s, op, id) ==> {
            let r = op_step(s, op);
            &&& r.ready.len() > 0
            &&& r.ready[r.ready.len() - 1] == id
            &&& !r.blocked.contains(id)
            &&& !r.wakeups.contains(id)
        },
        !op_blocks(s, op, id) ==> op_step(s, op).wakeups.contains(id),
{
    lemma_op_step_preserves_inv(s, op);
}

/// A pending wake signal stays pending across any valid run in which its
/// target never blocks.
pub proof fn lemma_wakeup_pending_persists(s: SchedModel, ops: Seq<SchedOp>, id: u64)
    requires
        inv(s),
        ops_valid(s, ops),
        s.wakeups.contains(id),
        forall|k: int|
            0 <= k < ops.len() ==> !op_blocks(#[trigger] op_run(s, ops.take(k)), ops[k], id),
    ensures
        inv(op_run(s, ops)),
        op_run(s, ops).wakeups.contains(id),
    decreases ops.len(),
{
    if ops.len() > 0 {
        assert(ops.take(0) =~= Seq::<SchedOp>::empty());
        assert(op_run(s, ops.take(0)) == s);
        assert(!op_blocks(s, ops[0], id));
        lemma_pending_wakeup_step(s, ops[0], id);
        let s1 = op_step(s, ops[0]);
        let rest = ops.drop_first();
        assert forall|k: int| 0 <= k < rest.len() implies !op_blocks(
            #[trigger] op_run(s1, rest.take(k)),
            rest[k],
            id,
        ) by {
            assert(ops.take(k + 1).drop_first() =~= rest.take(k));
            assert(op_run(s, ops.take(k + 1)) == op_run(s1, rest.take(k)));
            assert(!op_blocks(op_run(s, ops.take(k + 1)), ops[k + 1], id));
        }
        lemma_wakeup_pending_persists(s1, rest, id);
    }
}

/// A sequence rotated left by one: the head moves to the back.
pub open spec fn rotate_once(q: Seq<u64>) -> Seq<u64> {
    q.drop_first().push(q[0])
}

/// A sequence rotated left `k` times.
pub open spec fn rotate(q: Seq<u64>, k: nat) -> Seq<u64>
    decreases k,
{
    if k == 0 {
        q
    } else {
        rotate(rotate_once(q), (k - 1) as nat)
    }
}

/// Rotation reads off cyclically: the element at `i` after `k` left
/// rotations is the element at `(k + i) mod len` of the unrotated sequence.
pub proof fn lemma_rotate_index(q: Seq<u64>, k: nat, i: int)
    requires
        q.len() > 0,
        0 <= i < q.len(),
    ensures
        rotate(q, k).len() == q.len(),
        rotate(q, k)[i] == q[(k + i) % (q.len() as int)],
    decreases k,
{
    let len = q.len() as int;
    lemma_mod_bound(k + i, len);
    if k == 0 {
        lemma_small_mod(i as nat, q.len());
    } else {
        let q1 = rotate_once(q);
        lemma_rotate_index(q1, (k - 1) as nat, i);
        let j = (k - 1 + i) % len;
        lemma_mod_bound(k - 1 + i, len);
        assert(q1[j] == if j < len - 1 {
            q[j + 1]
        } else {
            q[0]
        });
        if len == 1 {
            lemma_small_mod(0, q.len());
        } else {
            lemma_add_mod_noop(k - 1 + i, 1, len);
            lemma_small_mod(1, q.len());
            assert((j + 1) % len == (k + i) % len);
            if j < len - 1 {
                lemma_small_mod((j + 1) as nat, q.len());
            } else {
                assert((j + 1) % len == 0) by {
                    lemma_mod_add_multiples_vanish(0, len);
                    lemma_small_mod(0, q.len());
                }
            }
        }
    }
}

/// Rotating a sequence by its whole length brings it back to itself: the
/// order is cyclic.
pub proof fn lemma_rotate_full_cycle(q: Seq<u64>)
    requires
        q.len() > 0,
    ensures
        rotate(q, q.len()) =~= q,
{
    let len = q.len() as int;
    assert forall|i: int| 0 <= i < len implies rotate(q, q.len())[i] == q[i] by {
        lemma_rotate_index(q, q.len(), i);
        lemma_mod_add_multiples_vanish(i, len);
        lemma_small_mod(i as nat, q.len());
    }
    lemma_rotate_index(q, q.len(), 0);
}

/// Whether this operation is a voluntary yield round.
pub open spec fn yield_round(op: SchedOp) -> bool {
    op matches SchedOp::Round { reason: SwitchReason::Yield, .. }
}

/// One yield round, taken in a state where the ready queue is not empty and
/// the idle thread is not the one running, schedules exactly the head of
/// the ready queue and rotates the ring of runnable threads — the ready
/// queue followed by the running thread — left by one.
pub proof fn lemma_yield_round_rotates(s: SchedModel, op: SchedOp)
    requires
        inv(s),
        yield_round(op),
        s.ready.len() >= 1,
        s.idle != Some(s.current),
    ensures
        inv(op_step(s, op)),
        sched_pick(s) == Some(s.ready[0]),
        op_step(s, op).current == s.ready[0],
        op_step(s, op).ready.len() == s.ready.len(),
        op_step(s, op).idle == s.idle,
        op_step(s, op).idle != Some(op_step(s, op).current),
        op_step(s, op).ready.push(op_step(s, op).current) =~= rotate_once(
            s.ready.push(s.current),
        ),
{
    lemma_op_step_preserves_inv(s, op);
}

/// FIFO order under voluntary yields: starting from any state whose ready
/// queue holds the threads in their registration order, `n` yield rounds
/// schedule exactly those threads in that order, cyclically — at round `k`
/// the thread picked is the one at position `k mod ring length` of the ring
/// of runnable threads, and the ring itself is left rotated by `n`.
pub proof fn lemma_yields_follow_fifo_order(s: SchedModel, ops: Seq<SchedOp>)
    requires
        inv(s),
        s.ready.len() >= 1,
        s.idle != Some(s.current),
        forall|i: int| 0 <= i < ops.len() ==> yield_round(#[trigger] ops[i]),
    ensures
        inv(op_run(s, ops)),
        op_run(s, ops).ready.len() == s.ready.len(),
        op_run(s, ops).idle != Some(op_run(s, ops).current),
        op_run(s, ops).ready.push(op_run(s, ops).current) =~= rotate(
            s.ready.push(s.current),
            ops.len(),
        ),
        forall|k: int|
            0 <= k < ops.len() ==> sched_pick(#[trigger] op_run(s, ops.take(k))) == Some(
                s.ready.push(s.current)[k % (s.ready.len() + 1) as int],
            ),
    decreases ops.len(),
{
    let ring = s.ready.push(s.current);
    if ops.len() > 0 {
        lemma_yield_round_rotates(s, ops[0]);
        let s1 = op_step(s, ops[0]);
        let rest = ops.drop_first();
        let ring1 = s1.ready.push(s1.current);
        assert(ring1 =~= rotate_once(ring));
        lemma_yields_follow_fifo_order(s1, rest);
        assert(rotate(ring1, rest.len()) =~= rotate(rotate_once(ring), rest.len()));
        assert(rotate(ring, ops.len()) == rotate(rotate_once(ring), (ops.len() - 1) as nat));
        assert forall|k: int| 0 <= k < ops.len() implies sched_pick(
            #[trigger] op_run(s, ops.take(k)),
        ) == Some(ring[k % (s.ready.len() + 1) as int]) by {
            let len = (s.ready.len() + 1) as int;
            if k == 0 {
                assert(ops.take(0) =~= Seq::<SchedOp>::empty());
                lemma_small_mod(0, (s.ready.len() + 1) as nat);
                assert(ring[0] == s.ready[0]);
            } else {
                assert(ops.take(k).drop_first() =~= rest.take(k - 1));
                assert(op_run(s, ops.take(k)) == op_run(s1, rest.take(k - 1)));
                assert(sched_pick(op_run(s1, rest.take(k - 1))) == Some(
                    ring1[(k - 1) % len],
                ));
                lemma_mod_bound(k - 1, len);
                lemma_mod_bound(k, len);
                let j = (k - 1) % len;
                assert(ring1[j] == rotate_once(ring)[j]);
                assert(rotate_once(ring)[j] == if j < len - 1 {
                    ring[j + 1]
                } else {
                    ring[0]
                });
                if len == 1 {
                    assert(j == 0 && k % len == 0);
                    assert(ring1[j] == ring[k % len]);
                } else {
                    lemma_add_mod_noop(k - 1, 1, len);
                    lemma_small_mod(1, (s.ready.len() + 1) as nat);
                    assert((j + 1) % len == k % len);
                    if j < len - 1 {
                        lemma_small_mod((j + 1) as nat, (s.ready.len() + 1) as nat);
                        assert(ring1[j] == ring[k % len]);
                    } else {
                        lemma_mod_add_multiples_vanish(0, len);
                        lemma_small_mod(0, (s.ready.len() + 1) as nat);
                        assert((j + 1) % len == 0);
                        assert(ring1[j] == ring[k % len]);
                    }
                }
            }
        }
    }
}

} // verus!
