//! Thread-management core of a small kernel: stack allocation with guard
//! pages, initial stack images, and a cooperative/preemptive scheduler.
//!
//! Everything here works on a plain-value model of the machine: virtual and
//! physical addresses are `u64`s, the page-table state is an explicit mapping
//! table, and the processor-level control transfer is left to the surrounding
//! (unverified) kernel glue, which is handed an exact description of what to
//! do.

use vstd::prelude::*;

mod context_switch;
mod laws;
mod memory;
mod thread;
mod thread_scheduler;

pub use context_switch::INITIAL_FLAGS;
pub use context_switch::Stack;
pub use context_switch::WORD_SIZE;
pub use laws::SchedOp;
pub use laws::absent;
pub use laws::lemma_absent_step;
pub use laws::lemma_blocked_step;
pub use laws::lemma_blocked_until_woken;
pub use laws::lemma_exit_removes;
pub use laws::lemma_exited_never_scheduled;
pub use laws::lemma_idle_fixed_across_run;
pub use laws::lemma_idle_thread_apart;
pub use laws::lemma_op_run_preserves_inv;
pub use laws::lemma_op_step_preserves_inv;
pub use laws::lemma_park_preserves_inv;
pub use laws::lemma_pending_wakeup_step;
pub use laws::lemma_rotate_full_cycle;
pub use laws::lemma_rotate_index;
pub use laws::lemma_take_preserves_inv;
pub use laws::lemma_wake_remembered;
pub use laws::lemma_wakeup_pending_persists;
pub use laws::lemma_yield_round_rotates;
pub use laws::lemma_yields_follow_fifo_order;
pub use laws::op_blocks;
pub use laws::op_registers;
pub use laws::op_run;
pub use laws::op_step;
pub use laws::op_valid;
pub use laws::op_wakes;
pub use laws::ops_valid;
pub use laws::rotate;
pub use laws::rotate_once;
pub use laws::yield_round;
pub use memory::AllocationError;
pub use memory::FrameAllocator;
pub use memory::MappingTable;
pub use memory::StackBounds;
pub use memory::StackCursor;
pub use memory::alloc_stack;
pub use memory::lemma_guard_page_stays_unmapped;
pub use memory::mapped_below;
pub use memory::stack_allocation_failed;
pub use memory::stack_allocation_ok;
pub use memory::stack_region_reserved;
pub use thread::SwitchReason;
pub use thread::Thread;
pub use thread::ThreadID;
pub use thread::ThreadIdCounter;
pub use thread::ThreadModel;
pub use thread_scheduler::SchedModel;
pub use thread_scheduler::Scheduler;
pub use thread_scheduler::SwitchPlan;
pub use thread_scheduler::exit_thread;
pub use thread_scheduler::inv;
pub use thread_scheduler::inv_at;
pub use thread_scheduler::inv_mid;
pub use thread_scheduler::invoke_scheduler;
pub use thread_scheduler::sched_park;
pub use thread_scheduler::sched_pick;
pub use thread_scheduler::sched_register;
pub use thread_scheduler::sched_register_idle;
pub use thread_scheduler::sched_take;
pub use thread_scheduler::sched_wake;
pub use thread_scheduler::switch_planned;
pub use thread_scheduler::yield_now;

verus! {

/// Number of bytes in one page of virtual or physical memory.
pub const PAGE_SIZE: u64 = 4096;

} // verus!
