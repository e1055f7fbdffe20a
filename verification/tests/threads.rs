use osdev::AllocationError;
use osdev::FrameAllocator;
use osdev::INITIAL_FLAGS;
use osdev::MappingTable;
use osdev::PAGE_SIZE;
use osdev::Stack;
use osdev::StackCursor;
use osdev::Thread;
use osdev::ThreadIdCounter;
use osdev::WORD_SIZE;

const STACK_BASE: u64 = 0x5555_5555_0000;
const FRAME_BASE: u64 = 0x10_0000;

#[test]
fn entry_point_image_holds_entry_then_flags() {
    let mut stack = Stack::new(0x8000);
    stack.set_up_for_entry_point(0x1234);
    assert_eq!(stack.get_stack_pointer(), 0x8000 - 2 * WORD_SIZE);
    assert_eq!(stack.written_words().as_slice(), &[0x1234, INITIAL_FLAGS]);
    assert_eq!(INITIAL_FLAGS, 0x200);
}

#[test]
fn closure_image_holds_both_words_below_the_stub() {
    let mut stack = Stack::new(0x8000);
    stack.set_up_for_closure(0xAAAA, 0xBBBB, 0xCCCC);
    assert_eq!(stack.get_stack_pointer(), 0x8000 - 4 * WORD_SIZE);
    assert_eq!(
        stack.written_words().as_slice(),
        &[0xAAAA, 0xBBBB, 0xCCCC, INITIAL_FLAGS]
    );
}

#[test]
fn created_threads_get_fresh_increasing_ids() {
    let mut ids = ThreadIdCounter::new();
    let mut cursor = StackCursor::new(STACK_BASE);
    let mut mapper = MappingTable::new();
    let mut frames = FrameAllocator::new(FRAME_BASE, 64);

    let (first, _) = Thread::create(0x1000, 2, &mut ids, &mut cursor, &mut mapper, &mut frames)
        .expect("creation should succeed");
    let (second, _) = Thread::create(0x1000, 2, &mut ids, &mut cursor, &mut mapper, &mut frames)
        .expect("creation should succeed");
    assert_eq!(first.id().as_u64(), 1);
    assert_eq!(second.id().as_u64(), 2);
}

#[test]
fn created_thread_pauses_at_top_of_its_image() {
    let mut ids = ThreadIdCounter::new();
    let mut cursor = StackCursor::new(STACK_BASE);
    let mut mapper = MappingTable::new();
    let mut frames = FrameAllocator::new(FRAME_BASE, 64);

    let (thread, image) =
        Thread::create(0x1000, 2, &mut ids, &mut cursor, &mut mapper, &mut frames)
            .expect("creation should succeed");
    let bounds = thread.stack_bounds().expect("created thread owns a stack");
    assert_eq!(bounds.end() - bounds.start(), 2 * PAGE_SIZE);
    assert_eq!(image.get_stack_pointer(), bounds.end() - 2 * WORD_SIZE);
    assert_eq!(thread.stack_pointer(), Some(image.get_stack_pointer()));
    assert_eq!(image.written_words().as_slice(), &[0x1000, INITIAL_FLAGS]);
}

#[test]
fn closure_thread_image_reaches_the_dispatch_stub() {
    let mut ids = ThreadIdCounter::new();
    let mut cursor = StackCursor::new(STACK_BASE);
    let mut mapper = MappingTable::new();
    let mut frames = FrameAllocator::new(FRAME_BASE, 64);

    let (thread, image) = Thread::create_from_closure(
        0x7000, 0x7008, 0x4000, 2, &mut ids, &mut cursor, &mut mapper, &mut frames,
    )
    .expect("creation should succeed");
    let bounds = thread.stack_bounds().expect("created thread owns a stack");
    assert_eq!(image.get_stack_pointer(), bounds.end() - 4 * WORD_SIZE);
    assert_eq!(
        image.written_words().as_slice(),
        &[0x7000, 0x7008, 0x4000, INITIAL_FLAGS]
    );
}

#[test]
fn failed_creation_leaves_the_id_counter_alone() {
    let mut ids = ThreadIdCounter::new();
    let mut cursor = StackCursor::new(STACK_BASE);
    let mut mapper = MappingTable::new();
    let mut frames = FrameAllocator::new(FRAME_BASE, 1);

    let r = Thread::create(0x1000, 4, &mut ids, &mut cursor, &mut mapper, &mut frames);
    assert!(matches!(r, Err(AllocationError::FrameExhausted)));

    let mut more_frames = FrameAllocator::new(FRAME_BASE + 0x10_0000, 64);
    let (thread, _) =
        Thread::create(0x1000, 2, &mut ids, &mut cursor, &mut mapper, &mut more_frames)
            .expect("creation should succeed");
    assert_eq!(thread.id().as_u64(), 1);
}
