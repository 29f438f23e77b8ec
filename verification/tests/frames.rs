use vain::bitmap::BitmapAllocator;
use vain::frame_alloc::{alloc_frame, free_frame, mark_range_free, mark_range_used, plan_frame_bitmap, populate, FrameBitmapPlan, MemoryRegion};

fn regions() -> Vec<MemoryRegion> {
    vec![
        MemoryRegion { base: 0, length: 0x1000, usable: false },
        MemoryRegion { base: 0x1000, length: 0x8000, usable: true },
        MemoryRegion { base: 0x9000, length: 0x3000, usable: false },
        MemoryRegion { base: 0xC000, length: 0x4000, usable: true },
    ]
}

#[test]
fn plan_sizes_bitmap_from_highest_region() {
    let plan = plan_frame_bitmap(&regions()).unwrap();
    assert_eq!(plan, FrameBitmapPlan { total_frames: 16, bitmap_bytes: 2, bitmap_phys: 0x1000 });
}

#[test]
fn plan_fails_without_room_at_nonzero_address() {
    let r = vec![MemoryRegion { base: 0, length: 0x10000, usable: true }];
    assert_eq!(plan_frame_bitmap(&r), None);
    let r = vec![MemoryRegion { base: 0x1000, length: 0x1000, usable: false }];
    assert_eq!(plan_frame_bitmap(&r), None);
}

#[test]
fn populate_frees_usable_frames_except_the_bitmap() {
    let rs = regions();
    let plan = plan_frame_bitmap(&rs).unwrap();
    let mut buffer = vec![0u8; plan.bitmap_bytes];
    let mut a = BitmapAllocator::new(&mut buffer, plan.total_frames);
    populate(&mut a, &rs, &plan);
    // Frames 1..9 and 12..16 are usable; frame 1 holds the bitmap.
    assert_eq!(a.free_frames(), 8 - 1 + 4);
    let mut frames = Some(a);
    assert_eq!(alloc_frame(&mut frames), Some(0x2000));
    assert_eq!(alloc_frame(&mut frames), Some(0x3000));
    free_frame(&mut frames, 0x2FFF);
    assert_eq!(frames.as_ref().unwrap().free_frames(), 10);
}

#[test]
fn frame_functions_without_allocator() {
    let mut frames: Option<BitmapAllocator> = None;
    assert_eq!(alloc_frame(&mut frames), None);
    free_frame(&mut frames, 0x1000);
    assert!(frames.is_none());
}

#[test]
fn range_marking() {
    let mut buffer = vec![0u8; 2];
    let mut a = BitmapAllocator::new(&mut buffer, 12);
    mark_range_free(&mut a, 4, 20);
    assert_eq!(a.free_frames(), 8);
    mark_range_used(&mut a, 0, 6);
    assert_eq!(a.free_frames(), 6);
    mark_range_free(&mut a, 3, 2);
    assert_eq!(a.free_frames(), 6);
    let mut frames = Some(a);
    assert_eq!(alloc_frame(&mut frames), Some(6 * 4096));
}
