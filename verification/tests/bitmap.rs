use vain::bitmap::BitmapAllocator;

#[test]
fn test_bitmap_allocator() {
    let mut buffer = [0u8; 4];
    let mut allocator = BitmapAllocator::new(&mut buffer, 32);
    assert_eq!(allocator.free_frames(), 0);

    allocator.mark_free(0);
    allocator.mark_free(1);
    allocator.mark_free(5);
    assert_eq!(allocator.free_frames(), 3);

    assert_eq!(allocator.allocate(), Some(0));
    assert_eq!(allocator.allocate(), Some(1));
    assert_eq!(allocator.allocate(), Some(5));
    assert_eq!(allocator.allocate(), None);

    allocator.free(1);
    assert_eq!(allocator.allocate(), Some(1));
}

#[test]
fn new_allocator_marks_every_frame_used() {
    let mut buffer = [0u8; 2];
    let allocator = BitmapAllocator::new(&mut buffer, 16);
    assert_eq!(allocator.total_frames(), 16);
    assert_eq!(allocator.free_frames(), 0);
    assert_eq!(buffer, [0xFF, 0xFF]);
}

#[test]
fn allocation_walks_the_ring_from_the_last_frame() {
    let mut buffer = [0u8; 1];
    let mut allocator = BitmapAllocator::new(&mut buffer, 8);
    allocator.mark_free(2);
    allocator.mark_free(6);
    assert_eq!(allocator.allocate(), Some(2));
    allocator.free(1);
    // The search resumes at frame 2, so frame 6 comes before frame 1.
    assert_eq!(allocator.allocate(), Some(6));
    assert_eq!(allocator.allocate(), Some(1));
    assert_eq!(allocator.allocate(), None);
}

#[test]
fn frames_outside_the_range_are_ignored() {
    let mut buffer = [0u8; 2];
    let mut allocator = BitmapAllocator::new(&mut buffer, 10);
    allocator.mark_free(10);
    allocator.mark_free(15);
    assert_eq!(allocator.free_frames(), 0);
    allocator.mark_free(9);
    assert_eq!(allocator.free_frames(), 1);
    allocator.mark_used(12);
    assert_eq!(allocator.free_frames(), 1);
}

#[test]
fn marking_twice_counts_once() {
    let mut buffer = [0u8; 1];
    let mut allocator = BitmapAllocator::new(&mut buffer, 8);
    allocator.mark_free(3);
    allocator.mark_free(3);
    assert_eq!(allocator.free_frames(), 1);
    allocator.mark_used(3);
    allocator.mark_used(3);
    assert_eq!(allocator.free_frames(), 0);
    assert_eq!(allocator.allocate(), None);
}

#[test]
fn free_then_use_restores_the_count() {
    let mut buffer = [0u8; 1];
    let mut allocator = BitmapAllocator::new(&mut buffer, 8);
    allocator.mark_free(4);
    allocator.mark_free(7);
    allocator.mark_used(4);
    assert_eq!(allocator.free_frames(), 1);
    allocator.mark_free(4);
    assert_eq!(allocator.free_frames(), 2);
}

#[test]
fn single_free_frame_is_the_one_allocated() {
    let mut buffer = [0u8; 4];
    let mut allocator = BitmapAllocator::new(&mut buffer, 32);
    allocator.mark_free(31);
    assert_eq!(allocator.allocate(), Some(31));
    assert_eq!(allocator.free_frames(), 0);
}

#[test]
fn empty_allocator_allocates_nothing() {
    let mut buffer: [u8; 0] = [];
    let mut allocator = BitmapAllocator::new(&mut buffer, 0);
    assert_eq!(allocator.allocate(), None);
    allocator.mark_free(0);
    assert_eq!(allocator.free_frames(), 0);
}

#[test]
fn bitmap_is_kept_in_the_callers_buffer() {
    let mut buffer = [0u8; 2];
    {
        let mut allocator = BitmapAllocator::new(&mut buffer, 16);
        allocator.mark_free(0);
        allocator.mark_free(9);
        assert_eq!(allocator.allocate(), Some(0));
    }
    assert_eq!(buffer, [0xFF, 0xFD]);
}

#[test]
fn more_frames_than_bits_start_all_used() {
    let mut buffer = [0u8; 1];
    let mut allocator = BitmapAllocator::new(&mut buffer, 100);
    assert_eq!(allocator.total_frames(), 100);
    assert_eq!(allocator.free_frames(), 0);
    assert_eq!(allocator.allocate(), None);
    allocator.mark_free(3);
    assert_eq!(allocator.allocate(), Some(3));
}

#[test]
fn frames_past_the_range_leave_the_buffer_alone() {
    let mut buffer = [0u8; 2];
    {
        let mut allocator = BitmapAllocator::new(&mut buffer, 10);
        allocator.mark_free(12);
        allocator.mark_free(3);
        allocator.mark_used(15);
        allocator.free(14);
    }
    assert_eq!(buffer, [0xF7, 0xFF]);
}

#[test]
fn allocate_then_free_gives_back_the_bytes() {
    let mut buffer = [0u8; 2];
    {
        let mut allocator = BitmapAllocator::new(&mut buffer, 16);
        allocator.mark_free(2);
        allocator.mark_free(9);
        let frame = allocator.allocate().unwrap();
        assert_eq!(frame, 2);
        allocator.free(frame);
        assert_eq!(allocator.free_frames(), 2);
    }
    assert_eq!(buffer, [0xFB, 0xFD]);
}
