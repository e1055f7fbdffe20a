//! Stack allocation over a plain-value model of the memory collaborators.
//!
//! The page mapper and the physical frame allocator are outside this core;
//! they are consumed through narrow interfaces.  Here they appear as explicit
//! values — [`MappingTable`] records which virtual pages are mapped to which
//! physical frames, and [`FrameAllocator`] hands out previously unused frames
//! one at a time — so that the allocation logic itself, including the guard
//! page that is deliberately left unmapped, is checked in full.  The
//! surrounding kernel glue mirrors every recorded mapping into the real page
//! tables.

use vstd::prelude::*;

use crate::PAGE_SIZE;

verus! {

/// Failure of stack allocation.
#[derive(Debug, Clone, Copy, PartialEq, Eq, Structural)]
pub enum AllocationError {
    /// The frame allocator could not supply a physical frame.
    FrameExhausted,
    /// The virtual page chosen for the stack already had a mapping.
    PageAlreadyMapped,
}

/// The usable `[start, end)` virtual range of a thread's stack, guard page
/// excluded.  Immutable once computed.
#[derive(Debug, Clone, Copy, PartialEq, Eq, Structural)]
pub struct StackBounds {
    start: u64,
    end: u64,
}

impl StackBounds {
    /// First usable address: page aligned, never above `end`.
    pub closed spec fn spec_start(&self) -> u64 {
        self.start
    }

    /// One past the last usable address: page aligned.
    pub closed spec fn spec_end(&self) -> u64 {
        self.end
    }

    /// Both ends are page aligned and the range is well ordered.
    pub open spec fn wf(&self) -> bool {
        &&& self.spec_start() % PAGE_SIZE == 0
        &&& self.spec_end() % PAGE_SIZE == 0
        &&& self.spec_start() <= self.spec_end()
    }

    /// First usable address of the stack.
    #[verifier::when_used_as_spec(spec_start)]
    pub fn start(&self) -> (r: u64)
        ensures
            r == self.spec_start(),
    {
        self.start
    }

    /// One past the last usable address of the stack.
    #[verifier::when_used_as_spec(spec_end)]
    pub fn end(&self) -> (r: u64)
        ensures
            r == self.spec_end(),
    {
        self.end
    }
}

/// Model of the physical frame collaborator: a finite pool of page-sized
/// frames, handed out in address order, each one previously unused.
pub struct FrameAllocator {
    next_frame: u64,
    frames_remaining: u64,
}

impl FrameAllocator {
    /// Address of the next frame this allocator would hand out.
    pub closed spec fn spec_next_frame(&self) -> u64 {
        self.next_frame
    }

    /// How many frames are still available.
    pub closed spec fn spec_frames_remaining(&self) -> u64 {
        self.frames_remaining
    }

    /// Frames are page aligned and the whole pool fits in the address space.
    pub open spec fn wf(&self) -> bool {
        &&& self.spec_next_frame() % PAGE_SIZE == 0
        &&& self.spec_next_frame() + self.spec_frames_remaining() * PAGE_SIZE <= u64::MAX
    }

    /// A pool of `frame_count` frames starting at `first_frame`.
    pub fn new(first_frame: u64, frame_count: u64) -> (r: FrameAllocator)
        requires
            first_frame % PAGE_SIZE == 0,
            first_frame + frame_count * PAGE_SIZE <= u64::MAX,
        ensures
            r.wf(),
            r.spec_next_frame() == first_frame,
            r.spec_frames_remaining() == frame_count,
    {
        FrameAllocator { next_frame: first_frame, frames_remaining: frame_count }
    }

    /// How many frames are still available.
    pub fn frames_remaining(&self) -> (r: u64)
        ensures
            r == self.spec_frames_remaining(),
    {
        self.frames_remaining
    }

    /// Hands out the next unused frame, or `None` exactly when the pool is
    /// exhausted.
    pub fn allocate_frame(&mut self) -> (r: Option<u64>)
        requires
            old(self).wf(),
        ensures
            final(self).wf(),
            match r {
                Some(frame) => {
                    &&& old(self).spec_frames_remaining() > 0
                    &&& frame == old(self).spec_next_frame()
                    &&& frame % PAGE_SIZE == 0
                    &&& final(self).spec_next_frame() == old(self).spec_next_frame() + PAGE_SIZE
                    &&& final(self).spec_frames_remaining() == old(self).spec_frames_remaining()
                        - 1
                },
                None => {
                    &&& old(self).spec_frames_remaining() == 0
                    &&& *final(self) == *old(self)
                },
            },
    {
        if self.frames_remaining == 0 {
            None
        } else {
            let frame = self.next_frame;
            assert(self.frames_remaining * PAGE_SIZE >= 1 * PAGE_SIZE) by (nonlinear_arith)
                requires
                    self.frames_remaining >= 1,
            ;
            self.next_frame = self.next_frame + PAGE_SIZE;
            self.frames_remaining = self.frames_remaining - 1;
            assert((self.frames_remaining + 1) * PAGE_SIZE == self.frames_remaining * PAGE_SIZE
                + PAGE_SIZE) by (nonlinear_arith);
            Some(frame)
        }
    }
}

/// Model of the page-table collaborator: which virtual pages are currently
/// mapped, and to which physical frames.
pub struct MappingTable {
    entries: std::collections::BTreeMap<u64, u64>,
}

impl MappingTable {
    /// The established mappings, page start to frame start.
    pub closed spec fn mappings(&self) -> Map<u64, u64> {
        self.entries@
    }

    /// A table with no mappings.
    pub fn new() -> (r: MappingTable)
        ensures
            r.mappings() == Map::<u64, u64>::empty(),
    {
        MappingTable { entries: std::collections::BTreeMap::new() }
    }

    /// Whether `page` currently has a mapping.
    pub fn is_mapped(&self, page: u64) -> (r: bool)
        ensures
            r == self.mappings().contains_key(page),
    {
        self.entries.contains_key(&page)
    }

    /// Establishes `page -> frame`, present and writable; refuses a page that
    /// is already mapped.
    pub fn map_to(&mut self, page: u64, frame: u64) -> (r: Result<(), AllocationError>)
        requires
            page % PAGE_SIZE == 0,
            frame % PAGE_SIZE == 0,
        ensures
            match r {
                Ok(()) => {
                    &&& !old(self).mappings().contains_key(page)
                    &&& final(self).mappings() == old(self).mappings().insert(page, frame)
                },
                Err(e) => {
                    &&& e == AllocationError::PageAlreadyMapped
                    &&& old(self).mappings().contains_key(page)
                    &&& *final(self) == *old(self)
                },
            },
    {
        if self.entries.contains_key(&page) {
            Err(AllocationError::PageAlreadyMapped)
        } else {
            self.entries.insert(page, frame);
            Ok(())
        }
    }
}

/// The process-wide cursor from which stack regions are carved: virtual
/// addresses at or above it have never been handed out, and are never reused
/// once the cursor moves past them.
pub struct StackCursor {
    next: u64,
}

impl StackCursor {
    /// The lowest virtual address not yet handed out to any stack region.
    pub closed spec fn spec_next(&self) -> u64 {
        self.next
    }

    /// The cursor stays page aligned.
    pub open spec fn wf(&self) -> bool {
        self.spec_next() % PAGE_SIZE == 0
    }

    /// A cursor that starts carving regions at `start`.
    pub fn new(start: u64) -> (r: StackCursor)
        requires
            start % PAGE_SIZE == 0,
        ensures
            r.wf(),
            r.spec_next() == start,
    {
        StackCursor { next: start }
    }

    /// The lowest virtual address not yet handed out.
    pub fn next_address(&self) -> (r: u64)
        ensures
            r == self.spec_next(),
    {
        self.next
    }
}

/// All mapped pages lie strictly below `bound`: the address space at and
/// above the stack cursor is untouched.
pub open spec fn mapped_below(mapper: MappingTable, bound: u64) -> bool {
    forall|p: u64| mapper.mappings().contains_key(p) ==> p < bound
}

/// What holds after the cursor has moved past a whole `size_in_pages + 1`
/// page reservation, whether or not every page got its frame: the guard page
/// at the old cursor is unmapped, every earlier mapping is untouched, and
/// everything mapped still lies below the new cursor.
pub open spec fn stack_region_reserved(
    pre_cursor: StackCursor,
    pre_mapper: MappingTable,
    post_cursor: StackCursor,
    post_mapper: MappingTable,
    size_in_pages: u64,
) -> bool {
    &&& post_cursor.wf()
    &&& post_cursor.spec_next() == pre_cursor.spec_next() + (size_in_pages + 1) * PAGE_SIZE
    &&& mapped_below(post_mapper, post_cursor.spec_next())
    &&& !post_mapper.mappings().contains_key(pre_cursor.spec_next())
    &&& forall|p: u64|
        pre_mapper.mappings().contains_key(p) ==> post_mapper.mappings().contains_key(p)
            && post_mapper.mappings()[p] == pre_mapper.mappings()[p]
}

/// Successful stack allocation: the usable range `b` covers exactly
/// `size_in_pages` pages right above the unmapped guard page, each mapped to
/// the next fresh frame, and nothing else changed.
pub open spec fn stack_allocation_ok(
    pre_cursor: StackCursor,
    pre_mapper: MappingTable,
    pre_fa: FrameAllocator,
    post_cursor: StackCursor,
    post_mapper: MappingTable,
    post_fa: FrameAllocator,
    size_in_pages: u64,
    b: StackBounds,
) -> bool {
    &&& stack_region_reserved(pre_cursor, pre_mapper, post_cursor, post_mapper, size_in_pages)
    &&& b.wf()
    &&& b.spec_start() == pre_cursor.spec_next() + PAGE_SIZE
    &&& b.spec_end() == b.spec_start() + size_in_pages * PAGE_SIZE
    &&& post_fa.wf()
    &&& pre_fa.spec_frames_remaining() >= size_in_pages
    &&& post_fa.spec_frames_remaining() == pre_fa.spec_frames_remaining() - size_in_pages
    &&& forall|p: u64|
        post_mapper.mappings().contains_key(p) <==> (pre_mapper.mappings().contains_key(p) || (
        b.spec_start() <= p < b.spec_end() && p % PAGE_SIZE == 0))
    &&& forall|i: int|
        0 <= i < size_in_pages ==> #[trigger] post_mapper.mappings()[(b.spec_start() + i
            * PAGE_SIZE) as u64] == (pre_fa.spec_next_frame() + i * PAGE_SIZE) as u64
}

/// Failed stack allocation: the frame pool ran dry before every usable page
/// had a frame; the mappings already made are kept, and the reservation still
/// stands, so nothing of it is ever reused.
pub open spec fn stack_allocation_failed(
    pre_cursor: StackCursor,
    pre_mapper: MappingTable,
    pre_fa: FrameAllocator,
    post_cursor: StackCursor,
    post_mapper: MappingTable,
    post_fa: FrameAllocator,
    size_in_pages: u64,
) -> bool {
    &&& stack_region_reserved(pre_cursor, pre_mapper, post_cursor, post_mapper, size_in_pages)
    &&& pre_fa.spec_frames_remaining() < size_in_pages
    &&& post_fa.wf()
    &&& post_fa.spec_frames_remaining() == 0
    &&& forall|p: u64|
        post_mapper.mappings().contains_key(p) <==> (pre_mapper.mappings().contains_key(p) || (
        pre_cursor.spec_next() + PAGE_SIZE <= p < pre_cursor.spec_next() + PAGE_SIZE
            + pre_fa.spec_frames_remaining() * PAGE_SIZE && p % PAGE_SIZE == 0))
}

/// A guard page stays unmapped forever: any page at or below a stack
/// cursor that is unmapped when a later allocation begins — every guard
/// page of an earlier allocation is such a page — is still unmapped after
/// that allocation succeeds, since new mappings only ever land above the
/// cursor.
pub proof fn lemma_guard_page_stays_unmapped(
    pre_cursor: StackCursor,
    pre_mapper: MappingTable,
    pre_fa: FrameAllocator,
    post_cursor: StackCursor,
    post_mapper: MappingTable,
    post_fa: FrameAllocator,
    size_in_pages: u64,
    b: StackBounds,
    guard: u64,
)
    requires
        stack_allocation_ok(
            pre_cursor,
            pre_mapper,
            pre_fa,
            post_cursor,
            post_mapper,
            post_fa,
            size_in_pages,
            b,
        ),
        !pre_mapper.mappings().contains_key(guard),
        guard <= pre_cursor.spec_next(),
    ensures
        !post_mapper.mappings().contains_key(guard),
{
}

/// Reserves `size_in_pages + 1` contiguous pages at the cursor, leaves the
/// first of them — the guard page — unmapped, maps the remaining
/// `size_in_pages` pages to consecutive fresh frames, and returns the usable
/// range.
///
/// On exhaustion of the frame pool the mappings already made are kept (the
/// caller treats exhaustion as fatal), and the cursor has still moved past
/// the whole reservation, so no later stack reuses any of its pages.
pub fn alloc_stack(
    size_in_pages: u64,
    cursor: &mut StackCursor,
    mapper: &mut MappingTable,
    frame_allocator: &mut FrameAllocator,
) -> (r: Result<StackBounds, AllocationError>)
    requires
        old(cursor).wf(),
        old(frame_allocator).wf(),
        old(cursor).spec_next() + (size_in_pages + 1) * PAGE_SIZE <= u64::MAX,
        mapped_below(*old(mapper), old(cursor).spec_next()),
    ensures
        match r {
            Ok(b) => stack_allocation_ok(
                *old(cursor),
                *old(mapper),
                *old(frame_allocator),
                *final(cursor),
                *final(mapper),
                *final(frame_allocator),
                size_in_pages,
                b,
            ),
            Err(e) => {
                &&& e == AllocationError::FrameExhausted
                &&& stack_allocation_failed(
                    *old(cursor),
                    *old(mapper),
                    *old(frame_allocator),
                    *final(cursor),
                    *final(mapper),
                    *final(frame_allocator),
                    size_in_pages,
                )
            },
        },
{
    let guard_page = cursor.next;
    proof {
        assert((size_in_pages + 1) * PAGE_SIZE == size_in_pages * PAGE_SIZE + PAGE_SIZE)
            by (nonlinear_arith);
        assert(size_in_pages * PAGE_SIZE >= 0) by (nonlinear_arith);
    }
    cursor.next = cursor.next + (size_in_pages + 1) * PAGE_SIZE;

    let stack_start = guard_page + PAGE_SIZE;
    let stack_end = stack_start + size_in_pages * PAGE_SIZE;

    let mut page = stack_start;
    let mut mapped: u64 = 0;
    while mapped < size_in_pages
        invariant
            stack_start == guard_page + PAGE_SIZE,
            stack_end == stack_start + size_in_pages * PAGE_SIZE,
            guard_page == old(cursor).spec_next(),
            guard_page % PAGE_SIZE == 0,
            stack_end <= u64::MAX,
            0 <= mapped <= size_in_pages,
            page == stack_start + mapped * PAGE_SIZE,
            page <= stack_end,
            cursor.wf(),
            cursor.spec_next() == old(cursor).spec_next() + (size_in_pages + 1) * PAGE_SIZE,
            cursor.spec_next() == stack_end,
            frame_allocator.wf(),
            frame_allocator.spec_next_frame() == old(frame_allocator).spec_next_frame() + mapped
                * PAGE_SIZE,
            frame_allocator.spec_frames_remaining() == old(
                frame_allocator,
            ).spec_frames_remaining() - mapped,
            mapped_below(*mapper, page),
            !mapper.mappings().contains_key(guard_page),
            forall|p: u64|
                old(mapper).mappings().contains_key(p) ==> mapper.mappings().contains_key(p)
                    && mapper.mappings()[p] == old(mapper).mappings()[p],
            forall|p: u64|
                mapper.mappings().contains_key(p) <==> (old(mapper).mappings().contains_key(p) || (
                stack_start <= p < page && p % PAGE_SIZE == 0)),
            forall|i: int|
                0 <= i < mapped ==> #[trigger] mapper.mappings()[(stack_start + i
                    * PAGE_SIZE) as u64] == (old(frame_allocator).spec_next_frame() + i
                    * PAGE_SIZE) as u64,
        decreases size_in_pages - mapped,
    {
        proof {
            assert((mapped + 1) * PAGE_SIZE == mapped * PAGE_SIZE + PAGE_SIZE) by (nonlinear_arith);
            assert(mapped * PAGE_SIZE <= size_in_pages * PAGE_SIZE && (mapped + 1) * PAGE_SIZE
                <= size_in_pages * PAGE_SIZE) by (nonlinear_arith)
                requires
                    mapped < size_in_pages,
            ;
            assert((guard_page as int + PAGE_SIZE + mapped as int * PAGE_SIZE) % (
            PAGE_SIZE as int) == 0) by (nonlinear_arith)
                requires
                    guard_page as int % (PAGE_SIZE as int) == 0,
            ;
        }
        let frame = match frame_allocator.allocate_frame() {
            Some(frame) => frame,
            None => {
                return Err(AllocationError::FrameExhausted);
            },
        };
        let map_result = mapper.map_to(page, frame);
        proof {
            assert(map_result is Ok);
        }
        let _ = map_result;
        page = page + PAGE_SIZE;
        mapped = mapped + 1;
    }

    Ok(StackBounds { start: stack_start, end: stack_end })
}

} // verus!
