use osdev::AllocationError;
use osdev::FrameAllocator;
use osdev::MappingTable;
use osdev::PAGE_SIZE;
use osdev::StackCursor;
use osdev::alloc_stack;

const STACK_BASE: u64 = 0x5555_5555_0000;
const FRAME_BASE: u64 = 0x10_0000;

#[test]
fn stack_of_k_pages_spans_exactly_k_pages() {
    let mut cursor = StackCursor::new(STACK_BASE);
    let mut mapper = MappingTable::new();
    let mut frames = FrameAllocator::new(FRAME_BASE, 16);

    let k: u64 = 3;
    let bounds = alloc_stack(k, &mut cursor, &mut mapper, &mut frames)
        .expect("allocation should succeed");
    assert_eq!(bounds.end() - bounds.start(), k * PAGE_SIZE);
    assert_eq!(bounds.start(), STACK_BASE + PAGE_SIZE);
}

#[test]
fn guard_page_below_stack_is_never_mapped() {
    let mut cursor = StackCursor::new(STACK_BASE);
    let mut mapper = MappingTable::new();
    let mut frames = FrameAllocator::new(FRAME_BASE, 16);

    let bounds = alloc_stack(3, &mut cursor, &mut mapper, &mut frames)
        .expect("allocation should succeed");
    let guard = bounds.start() - PAGE_SIZE;

    // The usable pages are mapped, the guard page is not.
    assert!(!mapper.is_mapped(guard));
    assert!(mapper.is_mapped(bounds.start()));
    assert!(mapper.is_mapped(bounds.start() + PAGE_SIZE));
    assert!(mapper.is_mapped(bounds.start() + 2 * PAGE_SIZE));
    assert!(!mapper.is_mapped(bounds.end()));

    // A later allocation maps its own pages but leaves every guard page —
    // the old one and its own — unmapped.
    let second = alloc_stack(2, &mut cursor, &mut mapper, &mut frames)
        .expect("second allocation should succeed");
    assert!(!mapper.is_mapped(guard));
    assert!(!mapper.is_mapped(second.start() - PAGE_SIZE));
    assert!(mapper.is_mapped(second.start()));
    assert_eq!(second.start() - PAGE_SIZE, bounds.end());
}

#[test]
fn stacks_use_fresh_frames_in_order() {
    let mut cursor = StackCursor::new(STACK_BASE);
    let mut mapper = MappingTable::new();
    let mut frames = FrameAllocator::new(FRAME_BASE, 16);

    alloc_stack(2, &mut cursor, &mut mapper, &mut frames).expect("allocation should succeed");
    assert_eq!(frames.frames_remaining(), 14);
    alloc_stack(3, &mut cursor, &mut mapper, &mut frames).expect("allocation should succeed");
    assert_eq!(frames.frames_remaining(), 11);
}

#[test]
fn exhausted_frame_pool_reports_frame_exhausted() {
    let mut cursor = StackCursor::new(STACK_BASE);
    let mut mapper = MappingTable::new();
    let mut frames = FrameAllocator::new(FRAME_BASE, 2);

    let r = alloc_stack(3, &mut cursor, &mut mapper, &mut frames);
    assert_eq!(r, Err(AllocationError::FrameExhausted));
    assert_eq!(frames.frames_remaining(), 0);

    // The pages that did get a frame are kept; there is no rollback.
    assert!(mapper.is_mapped(STACK_BASE + PAGE_SIZE));
    assert!(mapper.is_mapped(STACK_BASE + 2 * PAGE_SIZE));
    assert!(!mapper.is_mapped(STACK_BASE + 3 * PAGE_SIZE));
}

#[test]
fn mapping_a_page_twice_is_refused() {
    let mut mapper = MappingTable::new();
    assert_eq!(mapper.map_to(0x1000, FRAME_BASE), Ok(()));
    assert_eq!(
        mapper.map_to(0x1000, FRAME_BASE + PAGE_SIZE),
        Err(AllocationError::PageAlreadyMapped)
    );
    assert!(mapper.is_mapped(0x1000));
}

#[test]
fn zero_page_stack_reserves_only_its_guard_page() {
    let mut cursor = StackCursor::new(STACK_BASE);
    let mut mapper = MappingTable::new();
    let mut frames = FrameAllocator::new(FRAME_BASE, 4);

    let bounds = alloc_stack(0, &mut cursor, &mut mapper, &mut frames)
        .expect("allocation should succeed");
    assert_eq!(bounds.end(), bounds.start());
    assert!(!mapper.is_mapped(STACK_BASE));
    assert_eq!(frames.frames_remaining(), 4);
    assert_eq!(cursor.next_address(), STACK_BASE + PAGE_SIZE);
}

#[test]
fn frame_allocator_hands_out_consecutive_frames() {
    let mut frames = FrameAllocator::new(FRAME_BASE, 2);
    assert_eq!(frames.allocate_frame(), Some(FRAME_BASE));
    assert_eq!(frames.allocate_frame(), Some(FRAME_BASE + PAGE_SIZE));
    assert_eq!(frames.allocate_frame(), None);
}
