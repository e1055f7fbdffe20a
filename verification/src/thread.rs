//! Thread identities, the thread entity record, and the reasons a running
//! thread stops running.

use vstd::pervasive::unreached;
use vstd::prelude::*;

use crate::PAGE_SIZE;
use crate::context_switch::INITIAL_FLAGS;
use crate::context_switch::Stack;
use crate::context_switch::WORD_SIZE;
use crate::memory::AllocationError;
use crate::memory::FrameAllocator;
use crate::memory::MappingTable;
use crate::memory::StackBounds;
use crate::memory::StackCursor;
use crate::memory::alloc_stack;
use crate::memory::mapped_below;
use crate::memory::stack_allocation_failed;
use crate::memory::stack_allocation_ok;

verus! {

/// Identity of a thread, unique for the whole system.
///
/// The value `0` is reserved for the root thread, the one that is already
/// running when the scheduler is first constructed; every other identity is
/// handed out by a [`ThreadIdCounter`], which never repeats a value.
#[derive(Debug, Clone, Copy, PartialEq, Eq, Structural)]
pub struct ThreadID(u64);

impl ThreadID {
    /// The numeric value of this identity.
    pub closed spec fn spec_as_u64(&self) -> u64 {
        self.0
    }

    /// The numeric value of this identity.
    #[verifier::when_used_as_spec(spec_as_u64)]
    pub fn as_u64(&self) -> (r: u64)
        ensures
            r == self.spec_as_u64(),
    {
        self.0
    }

    /// Draws the next unused identity from `counter`.
    pub fn new(counter: &mut ThreadIdCounter) -> (r: ThreadID)
        requires
            old(counter).next() < u64::MAX,
        ensures
            r.as_u64() == old(counter).next(),
            final(counter).next() == old(counter).next() + 1,
    {
        let value = counter.next;
        counter.next = counter.next + 1;
        ThreadID(value)
    }

    /// The identity with this numeric value.
    ///
    /// An identity is a plain value; this is how the kernel glue rebuilds
    /// the typed identity that travelled through a register during a
    /// context switch.  Handing the scheduler a forged value is ruled out
    /// by its own preconditions, not by this constructor.
    pub fn from_u64(value: u64) -> (r: ThreadID)
        ensures
            r.as_u64() == value,
    {
        ThreadID(value)
    }

    /// The identity of the root thread.
    pub fn root() -> (r: ThreadID)
        ensures
            r.as_u64() == 0,
    {
        ThreadID(0)
    }
}

/// Source of fresh thread identities: a monotonically increasing counter that
/// starts above the reserved root identity `0`.
pub struct ThreadIdCounter {
    next: u64,
}

impl ThreadIdCounter {
    /// The value the next drawn identity will have.
    pub closed spec fn next(&self) -> u64 {
        self.next
    }

    /// A counter whose first drawn identity is `1`.
    pub fn new() -> (r: ThreadIdCounter)
        ensures
            r.next() == 1,
    {
        ThreadIdCounter { next: 1 }
    }
}

/// The thread entity: identity, the stack pointer saved while the thread is
/// not running, and the usable bounds of its stack.
///
/// `stack_pointer` is `None` exactly while the thread is the one currently
/// executing.  The root thread — the flow of control that was already running
/// at boot — has no allocated stack of its own, so its `stack_bounds` is
/// `None`.
#[derive(Debug)]
pub struct Thread {
    id: ThreadID,
    stack_pointer: Option<u64>,
    stack_bounds: Option<StackBounds>,
}

/// Mathematical image of a [`Thread`] record.
pub ghost struct ThreadModel {
    /// The thread's identity.
    pub id: ThreadID,
    /// The saved stack pointer, `None` exactly while the thread runs.
    pub stack_pointer: Option<u64>,
    /// The usable bounds of the thread's stack, `None` for the root thread.
    pub stack_bounds: Option<StackBounds>,
}

impl View for Thread {
    type V = ThreadModel;

    closed spec fn view(&self) -> ThreadModel {
        ThreadModel {
            id: self.id,
            stack_pointer: self.stack_pointer,
            stack_bounds: self.stack_bounds,
        }
    }
}

impl Thread {
    /// This thread's identity.
    pub open spec fn spec_id(&self) -> ThreadID {
        self@.id
    }

    /// The saved stack pointer, `None` exactly while the thread runs.
    pub open spec fn spec_stack_pointer(&self) -> Option<u64> {
        self@.stack_pointer
    }

    /// The usable bounds of this thread's stack, `None` for the root thread.
    pub open spec fn spec_stack_bounds(&self) -> Option<StackBounds> {
        self@.stack_bounds
    }

    /// This thread's identity.
    #[verifier::when_used_as_spec(spec_id)]
    pub fn id(&self) -> (r: ThreadID)
        ensures
            r == self.spec_id(),
    {
        self.id
    }

    /// The saved stack pointer, `None` exactly while the thread runs.
    pub fn stack_pointer(&self) -> (r: Option<u64>)
        ensures
            r == self.spec_stack_pointer(),
    {
        self.stack_pointer
    }

    /// The usable bounds of this thread's stack, `None` for the root thread.
    pub fn stack_bounds(&self) -> (r: Option<StackBounds>)
        ensures
            r == self.spec_stack_bounds(),
    {
        self.stack_bounds
    }

    /// Consumes the saved stack pointer of a paused thread as it is about to
    /// run.
    pub(crate) fn take_stack_pointer(&mut self) -> (r: u64)
        requires
            old(self).spec_stack_pointer() is Some,
        ensures
            r == old(self).spec_stack_pointer()->0,
            final(self).spec_stack_pointer() is None,
            final(self).spec_id() == old(self).spec_id(),
            final(self).spec_stack_bounds() == old(self).spec_stack_bounds(),
    {
        let sp = match self.stack_pointer {
            Some(sp) => sp,
            None => unreached(),
        };
        self.stack_pointer = None;
        sp
    }

    /// Records the saved stack pointer of the thread that just stopped
    /// running.
    pub(crate) fn store_stack_pointer(&mut self, stack_pointer: u64)
        requires
            old(self).spec_stack_pointer() is None,
        ensures
            final(self).spec_stack_pointer() == Some(stack_pointer),
            final(self).spec_id() == old(self).spec_id(),
            final(self).spec_stack_bounds() == old(self).spec_stack_bounds(),
    {
        self.stack_pointer = Some(stack_pointer);
    }

    /// A freshly built thread: paused at `stack_pointer`, owning the stack at
    /// `stack_bounds`.
    fn new(id: ThreadID, stack_pointer: u64, stack_bounds: StackBounds) -> (r: Thread)
        ensures
            r.spec_id() == id,
            r.spec_stack_pointer() == Some(stack_pointer),
            r.spec_stack_bounds() == Some(stack_bounds),
    {
        Thread { id, stack_pointer: Some(stack_pointer), stack_bounds: Some(stack_bounds) }
    }

    /// The record for the root thread: identity `0`, currently running, no
    /// allocated stack.
    pub(crate) fn create_root_thread() -> (r: Thread)
        ensures
            r.spec_id().as_u64() == 0,
            r.spec_stack_pointer() is None,
            r.spec_stack_bounds() is None,
    {
        Thread { id: ThreadID(0), stack_pointer: None, stack_bounds: None }
    }

    /// Builds a thread that will start at the plain entry point
    /// `entry_point`: allocates a guarded stack of `stack_size` pages, lays
    /// out its initial image, and returns the record together with the image
    /// the kernel glue must write below the stack's top.
    pub fn create(
        entry_point: u64,
        stack_size: u64,
        ids: &mut ThreadIdCounter,
        cursor: &mut StackCursor,
        mapper: &mut MappingTable,
        frame_allocator: &mut FrameAllocator,
    ) -> (r: Result<(Thread, Stack), AllocationError>)
        requires
            old(ids).next() < u64::MAX,
            stack_size >= 1,
            old(cursor).wf(),
            old(frame_allocator).wf(),
            old(cursor).spec_next() + (stack_size + 1) * PAGE_SIZE <= u64::MAX,
            mapped_below(*old(mapper), old(cursor).spec_next()),
        ensures
            match r {
                Ok((t, image)) => {
                    &&& t.spec_stack_bounds() is Some
                    &&& stack_allocation_ok(
                        *old(cursor),
                        *old(mapper),
                        *old(frame_allocator),
                        *final(cursor),
                        *final(mapper),
                        *final(frame_allocator),
                        stack_size,
                        t.spec_stack_bounds()->0,
                    )
                    &&& t.spec_id().as_u64() == old(ids).next()
                    &&& final(ids).next() == old(ids).next() + 1
                    &&& image.top() == t.spec_stack_bounds()->0.spec_end()
                    &&& image.words() == seq![entry_point, INITIAL_FLAGS]
                    &&& t.spec_stack_pointer() == Some(image.spec_pointer())
                },
                Err(e) => {
                    &&& e == AllocationError::FrameExhausted
                    &&& stack_allocation_failed(
                        *old(cursor),
                        *old(mapper),
                        *old(frame_allocator),
                        *final(cursor),
                        *final(mapper),
                        *final(frame_allocator),
                        stack_size,
                    )
                    &&& *final(ids) == *old(ids)
                },
            },
    {
        let stack_bounds = alloc_stack(stack_size, cursor, mapper, frame_allocator)?;
        proof {
            assert(stack_size * PAGE_SIZE >= 1 * PAGE_SIZE) by (nonlinear_arith)
                requires
                    stack_size >= 1,
            ;
        }
        let mut stack = Stack::new(stack_bounds.end());
        stack.set_up_for_entry_point(entry_point);
        let id = ThreadID::new(ids);
        Ok((Thread::new(id, stack.get_stack_pointer(), stack_bounds), stack))
    }

    /// Builds a thread that will start in a closure: as [`Thread::create`],
    /// but the image carries the closure's two raw words beneath the address
    /// of the glue's dispatch stub, which reconstructs and calls the closure.
    pub fn create_from_closure(
        closure_data: u64,
        closure_vtable: u64,
        dispatch_stub: u64,
        stack_size: u64,
        ids: &mut ThreadIdCounter,
        cursor: &mut StackCursor,
        mapper: &mut MappingTable,
        frame_allocator: &mut FrameAllocator,
    ) -> (r: Result<(Thread, Stack), AllocationError>)
        requires
            old(ids).next() < u64::MAX,
            stack_size >= 1,
            old(cursor).wf(),
            old(frame_allocator).wf(),
            old(cursor).spec_next() + (stack_size + 1) * PAGE_SIZE <= u64::MAX,
            mapped_below(*old(mapper), old(cursor).spec_next()),
        ensures
            match r {
                Ok((t, image)) => {
                    &&& t.spec_stack_bounds() is Some
                    &&& stack_allocation_ok(
                        *old(cursor),
                        *old(mapper),
                        *old(frame_allocator),
                        *final(cursor),
                        *final(mapper),
                        *final(frame_allocator),
                        stack_size,
                        t.spec_stack_bounds()->0,
                    )
                    &&& t.spec_id().as_u64() == old(ids).next()
                    &&& final(ids).next() == old(ids).next() + 1
                    &&& image.top() == t.spec_stack_bounds()->0.spec_end()
                    &&& image.words() == seq![
                        closure_data,
                        closure_vtable,
                        dispatch_stub,
                        INITIAL_FLAGS,
                    ]
                    &&& t.spec_stack_pointer() == Some(image.spec_pointer())
                },
                Err(e) => {
                    &&& e == AllocationError::FrameExhausted
                    &&& stack_allocation_failed(
                        *old(cursor),
                        *old(mapper),
                        *old(frame_allocator),
                        *final(cursor),
                        *final(mapper),
                        *final(frame_allocator),
                        stack_size,
                    )
                    &&& *final(ids) == *old(ids)
                },
            },
    {
        let stack_bounds = alloc_stack(stack_size, cursor, mapper, frame_allocator)?;
        proof {
            assert(stack_size * PAGE_SIZE >= 1 * PAGE_SIZE) by (nonlinear_arith)
                requires
                    stack_size >= 1,
            ;
        }
        let mut stack = Stack::new(stack_bounds.end());
        stack.set_up_for_closure(closure_data, closure_vtable, dispatch_stub);
        let id = ThreadID::new(ids);
        Ok((Thread::new(id, stack.get_stack_pointer(), stack_bounds), stack))
    }
}

/// Why the previously running thread stopped running; decides how the
/// scheduler re-files it.
#[derive(Debug, Clone, Copy, PartialEq, Eq, Structural)]
pub enum SwitchReason {
    /// Preempted from outside (timer tick); goes to the back of the ready queue.
    Paused,
    /// Gave up the processor voluntarily; goes to the back of the ready queue.
    Yield,
    /// Waits for a wake signal; parked in the blocked set.
    Blocked,
    /// Finished for good; removed from the thread table.
    Exit,
}

} // verus!
