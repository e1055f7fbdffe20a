//! Construction of the initial stack image for a new thread.
//!
//! The control-transfer primitive restores a thread by popping a flags word
//! and then returning into the address found below it.  A fresh stack must
//! therefore be pre-loaded so that the first transfer into it starts the
//! chosen entry point with interrupts enabled.  This module computes that
//! image as explicit words; the surrounding kernel glue — the only place that
//! touches raw stack memory or the processor's stack-pointer register —
//! writes word `i` at `top - 8 * (i + 1)` and later jumps through the
//! recorded stack pointer.

use vstd::prelude::*;

verus! {

/// The processor flags word pushed for a fresh thread: only the
/// interrupt-enable bit is set.
pub const INITIAL_FLAGS: u64 = 0x200;

/// Number of bytes in one pushed word.
pub const WORD_SIZE: u64 = 8;

/// A stack being pre-loaded with its initial image: the current stack-top
/// cursor together with the words pushed so far, oldest first.
pub struct Stack {
    pointer: u64,
    words: Vec<u64>,
}

impl Stack {
    /// Where the stack pointer stands now: the address the next push writes
    /// just below.
    pub closed spec fn spec_pointer(&self) -> u64 {
        self.pointer
    }

    /// The words pushed so far, oldest first; the word at index `i` lives at
    /// `top - WORD_SIZE * (i + 1)`.
    pub closed spec fn words(&self) -> Seq<u64> {
        self.words@
    }

    /// The stack-top address this image was started from.
    pub open spec fn top(&self) -> int {
        self.spec_pointer() + self.words().len() * WORD_SIZE
    }

    /// An empty image whose pushes grow down from `stack_top`.
    pub fn new(stack_top: u64) -> (r: Stack)
        ensures
            r.spec_pointer() == stack_top,
            r.words() == Seq::<u64>::empty(),
    {
        Stack { pointer: stack_top, words: Vec::new() }
    }

    /// The address at which the first control transfer into this stack must
    /// resume it.
    pub fn get_stack_pointer(&self) -> (r: u64)
        ensures
            r == self.spec_pointer(),
    {
        self.pointer
    }

    /// The pushed words, oldest first, for the glue that writes them to the
    /// real stack memory.
    pub fn written_words(&self) -> (r: &Vec<u64>)
        ensures
            r@ == self.words(),
    {
        &self.words
    }

    /// Pushes one word: the cursor moves down by a word, and the word is
    /// recorded for the glue to write there.
    fn push(&mut self, value: u64)
        requires
            old(self).spec_pointer() >= WORD_SIZE,
        ensures
            final(self).spec_pointer() == old(self).spec_pointer() - WORD_SIZE,
            final(self).words() == old(self).words().push(value),
    {
        self.pointer = self.pointer - WORD_SIZE;
        self.words.push(value);
    }

    /// Lays out the image for a plain entry point: the entry address, then a
    /// flags word with interrupts enabled, exactly what the restore sequence
    /// pops before it returns into the entry point.
    ///
    /// The stack allocator guarantees the room these pushes need; that is a
    /// documented precondition, not a runtime check.
    pub fn set_up_for_entry_point(&mut self, entry_point: u64)
        requires
            old(self).spec_pointer() >= 2 * WORD_SIZE,
        ensures
            final(self).spec_pointer() == old(self).spec_pointer() - 2 * WORD_SIZE,
            final(self).words() == old(self).words().push(entry_point).push(INITIAL_FLAGS),
    {
        self.push(entry_point);
        self.push(INITIAL_FLAGS);
    }

    /// Lays out the image for a closure entry point: the closure's data and
    /// code-table words go beneath a stub entry whose job is to pop both and
    /// hand them to the dispatcher that reconstructs and calls the closure.
    ///
    /// `dispatch_stub` is the address of that stub in the kernel glue; the
    /// two raw words are the halves the glue split the closure into.
    pub fn set_up_for_closure(&mut self, closure_data: u64, closure_vtable: u64, dispatch_stub: u64)
        requires
            old(self).spec_pointer() >= 4 * WORD_SIZE,
        ensures
            final(self).spec_pointer() == old(self).spec_pointer() - 4 * WORD_SIZE,
            final(self).words() == old(self).words().push(closure_data).push(closure_vtable).push(
                dispatch_stub,
            ).push(INITIAL_FLAGS),
    {
        self.push(closure_data);
        self.push(closure_vtable);
        self.set_up_for_entry_point(dispatch_stub);
    }
}

} // verus!
