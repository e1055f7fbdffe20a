use osdev::FrameAllocator;
use osdev::MappingTable;
use osdev::Scheduler;
use osdev::StackCursor;
use osdev::SwitchReason;
use osdev::Thread;
use osdev::ThreadID;
use osdev::ThreadIdCounter;
use osdev::exit_thread;
use osdev::invoke_scheduler;
use osdev::yield_now;

const STACK_BASE: u64 = 0x5555_5555_0000;
const FRAME_BASE: u64 = 0x10_0000;

struct Env {
    ids: ThreadIdCounter,
    cursor: StackCursor,
    mapper: MappingTable,
    frames: FrameAllocator,
}

fn env() -> Env {
    Env {
        ids: ThreadIdCounter::new(),
        cursor: StackCursor::new(STACK_BASE),
        mapper: MappingTable::new(),
        frames: FrameAllocator::new(FRAME_BASE, 256),
    }
}

fn spawn(e: &mut Env, s: &mut Scheduler) -> ThreadID {
    let (thread, _image) = Thread::create(
        0x1000,
        2,
        &mut e.ids,
        &mut e.cursor,
        &mut e.mapper,
        &mut e.frames,
    )
    .expect("thread creation should succeed");
    let id = thread.id();
    s.add_new_thread(thread);
    id
}

fn spawn_idle(e: &mut Env, s: &mut Scheduler) -> ThreadID {
    let (thread, _image) = Thread::create(
        0x2000,
        2,
        &mut e.ids,
        &mut e.cursor,
        &mut e.mapper,
        &mut e.frames,
    )
    .expect("idle thread creation should succeed");
    let id = thread.id();
    s.set_idle_thread(thread);
    id
}

/// One voluntary yield round: decision, pretend switch, completion callback.
fn yield_round(s: &mut Scheduler, saved_sp: u64) -> u64 {
    let plan = yield_now(s).expect("a thread should be ready");
    s.add_paused_thread(saved_sp, plan.prev_thread_id, plan.reason);
    s.current_thread_id().as_u64()
}

/// The current thread blocks: decision, pretend switch, completion callback.
fn block_round(s: &mut Scheduler, saved_sp: u64) -> u64 {
    let (_next_sp, prev) = s.schedule().expect("a thread should be ready");
    s.add_paused_thread(saved_sp, prev, SwitchReason::Blocked);
    s.current_thread_id().as_u64()
}

/// The current thread exits: decision, pretend switch, completion callback.
fn exit_round(s: &mut Scheduler, saved_sp: u64) -> u64 {
    let plan = exit_thread(s);
    s.add_paused_thread(saved_sp, plan.prev_thread_id, plan.reason);
    s.current_thread_id().as_u64()
}

#[test]
fn fresh_scheduler_runs_root_thread() {
    let s = Scheduler::new();
    assert_eq!(s.current_thread_id().as_u64(), 0);
    assert_eq!(s.ready_count(), 0);
    assert!(s.contains_thread(ThreadID::root()));
}

#[test]
fn yield_with_nothing_ready_is_a_no_op() {
    let mut s = Scheduler::new();
    assert!(yield_now(&mut s).is_none());
    assert_eq!(s.current_thread_id().as_u64(), 0);
}

#[test]
fn yields_cycle_in_fifo_registration_order() {
    let mut e = env();
    let mut s = Scheduler::new();
    let a = spawn(&mut e, &mut s).as_u64();
    let b = spawn(&mut e, &mut s).as_u64();
    let c = spawn(&mut e, &mut s).as_u64();
    let idle = spawn_idle(&mut e, &mut s).as_u64();

    // The root thread bows out; A is next in line.
    assert_eq!(exit_round(&mut s, 0x9000), a);

    // With no blocking, the observed running order repeats A, B, C.
    let mut observed = Vec::new();
    for i in 0..6 {
        observed.push(yield_round(&mut s, 0xA000 + i));
    }
    assert_eq!(observed, vec![b, c, a, b, c, a]);
    assert!(!observed.contains(&idle));
}

#[test]
fn idle_thread_selected_only_when_queue_empties() {
    let mut e = env();
    let mut s = Scheduler::new();
    let a = spawn(&mut e, &mut s).as_u64();
    let b = spawn(&mut e, &mut s).as_u64();
    let idle_id = spawn_idle(&mut e, &mut s);

    // While the ready queue is non-empty, the idle thread is never chosen,
    // and it never sits in the ready queue or the blocked set.
    assert_eq!(exit_round(&mut s, 0x9000), a);
    assert!(!s.is_blocked(idle_id));
    assert_eq!(yield_round(&mut s, 0xA000), b);
    assert_eq!(yield_round(&mut s, 0xA001), a);

    // Once everything else has exited, the idle thread is the choice.
    assert_eq!(exit_round(&mut s, 0x9001), b);
    assert_eq!(exit_round(&mut s, 0x9002), idle_id.as_u64());
    assert!(s.contains_thread(idle_id));
}

#[test]
fn exited_thread_is_gone_for_good() {
    let mut e = env();
    let mut s = Scheduler::new();
    let a_id;
    {
        let a = spawn(&mut e, &mut s);
        a_id = a;
    }
    let a = a_id.as_u64();
    let b = spawn(&mut e, &mut s).as_u64();
    let c = spawn(&mut e, &mut s).as_u64();

    assert_eq!(exit_round(&mut s, 0x9000), a);
    assert!(s.contains_thread(a_id));

    // A exits: it leaves the thread table immediately ...
    assert_eq!(exit_round(&mut s, 0x9001), b);
    assert!(!s.contains_thread(a_id));

    // ... and never shows up in any later scheduling decision.
    for i in 0..8 {
        assert_ne!(yield_round(&mut s, 0xA000 + i), a);
    }
}

#[test]
fn blocked_thread_waits_for_its_wakeup() {
    let mut e = env();
    let mut s = Scheduler::new();
    let a_tid = spawn(&mut e, &mut s);
    let a = a_tid.as_u64();
    let b = spawn(&mut e, &mut s).as_u64();
    let c = spawn(&mut e, &mut s).as_u64();

    assert_eq!(exit_round(&mut s, 0x9000), a);

    // A blocks; however often B and C yield, A is not scheduled.
    assert_eq!(block_round(&mut s, 0xB000), b);
    assert!(s.is_blocked(a_tid));
    for i in 0..6 {
        assert_ne!(yield_round(&mut s, 0xA000 + i), a);
    }
    assert!(s.is_blocked(a_tid));

    // The wake signal puts A at the back of the ready queue.
    s.wake(a_tid);
    assert!(!s.is_blocked(a_tid));
    let first = yield_round(&mut s, 0xA100);
    let second = yield_round(&mut s, 0xA101);
    let third = yield_round(&mut s, 0xA102);
    assert!([first, second, third].contains(&a));
    assert_eq!([first, second, third], [c, a, b]);
}

#[test]
fn early_wakeup_is_remembered_not_lost() {
    let mut e = env();
    let mut s = Scheduler::new();
    let a_tid = spawn(&mut e, &mut s);
    let a = a_tid.as_u64();
    let b = spawn(&mut e, &mut s).as_u64();

    assert_eq!(exit_round(&mut s, 0x9000), a);

    // The signal arrives while A is running, not blocked: it is remembered.
    s.wake(a_tid);
    assert!(!s.is_blocked(a_tid));
    assert!(s.has_pending_wakeup(a_tid));

    // The moment A does block, the pending signal takes effect: A goes
    // straight back to the ready queue instead of sleeping.
    assert_eq!(block_round(&mut s, 0xB000), b);
    assert!(!s.is_blocked(a_tid));
    assert!(!s.has_pending_wakeup(a_tid));
    assert_eq!(yield_round(&mut s, 0xA000), a);
}

#[test]
fn woken_thread_joins_the_back_of_the_queue() {
    let mut e = env();
    let mut s = Scheduler::new();
    let a_tid = spawn(&mut e, &mut s);
    let a = a_tid.as_u64();
    let b = spawn(&mut e, &mut s).as_u64();
    let c = spawn(&mut e, &mut s).as_u64();

    // Fast-forward: root exits to A, A blocks, B runs; C was ready earlier.
    assert_eq!(exit_round(&mut s, 0x9000), a);
    assert_eq!(block_round(&mut s, 0xB000), b);

    // A's wake signal arrives; A is appended behind C, not pushed in front.
    s.wake(a_tid);
    assert_eq!(yield_round(&mut s, 0xA000), c);
    assert_eq!(yield_round(&mut s, 0xA001), a);
    assert_eq!(yield_round(&mut s, 0xA002), b);
}

#[test]
fn switch_plans_carry_their_reasons() {
    let mut e = env();
    let mut s = Scheduler::new();
    spawn(&mut e, &mut s);
    spawn(&mut e, &mut s);
    spawn(&mut e, &mut s);

    let plan = yield_now(&mut s).expect("ready thread");
    assert!(matches!(plan.reason, SwitchReason::Yield));
    assert_eq!(plan.prev_thread_id.as_u64(), 0);
    s.add_paused_thread(0xC000, plan.prev_thread_id, plan.reason);

    let plan = invoke_scheduler(&mut s).expect("ready thread");
    assert!(matches!(plan.reason, SwitchReason::Paused));
    s.add_paused_thread(0xC001, plan.prev_thread_id, plan.reason);

    let plan = exit_thread(&mut s);
    assert!(matches!(plan.reason, SwitchReason::Exit));
    s.add_paused_thread(0xC002, plan.prev_thread_id, plan.reason);
}

#[test]
fn preemption_resumes_at_saved_stack_pointer() {
    let mut e = env();
    let mut s = Scheduler::new();
    let (thread, image) = Thread::create(
        0x1000,
        2,
        &mut e.ids,
        &mut e.cursor,
        &mut e.mapper,
        &mut e.frames,
    )
    .expect("thread creation should succeed");
    let initial_sp = image.get_stack_pointer();
    s.add_new_thread(thread);

    // The first transfer into the new thread resumes at the freshly built
    // image's stack pointer.
    let plan = invoke_scheduler(&mut s).expect("ready thread");
    assert_eq!(plan.next_stack_pointer, initial_sp);
    s.add_paused_thread(0xD000, plan.prev_thread_id, plan.reason);

    // When the root thread is resumed later, it continues from the stack
    // pointer the switch reported for it.
    let plan = yield_now(&mut s).expect("root thread is ready");
    assert_eq!(plan.next_stack_pointer, 0xD000);
    s.add_paused_thread(initial_sp, plan.prev_thread_id, plan.reason);
}
