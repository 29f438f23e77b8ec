use vain::heap::{BumpAllocator, HEAP_SIZE, HEAP_START};
use vain::user_heap::{init_heap, BumpAllocator as UserBumpAllocator};

#[test]
fn kernel_heap_bumps_and_aligns() {
    let mut a = BumpAllocator::empty();
    a.init(0x1000, 0x1000);
    assert_eq!(a.allocate(10, 1), 0x1000);
    assert_eq!(a.allocate(8, 16), 0x1010);
    assert_eq!(a.allocate(1, 8), 0x1018);
}

#[test]
fn kernel_heap_rejects_bad_requests() {
    let mut a = BumpAllocator::empty();
    a.init(0x1000, 0x100);
    assert_eq!(a.allocate(8, 0), 0);
    assert_eq!(a.allocate(8, 3), 0);
    assert_eq!(a.allocate(0x101, 1), 0);
    assert_eq!(a.allocate(0, 64), 64);
    assert_eq!(a.allocate(0x100, 1), 0x1000);
    assert_eq!(a.allocate(1, 1), 0);
}

#[test]
fn kernel_heap_rewinds_when_all_blocks_return() {
    let mut a = BumpAllocator::empty();
    a.init(0x2000, 0x1000);
    assert_eq!(a.allocate(0x100, 8), 0x2000);
    assert_eq!(a.allocate(0x100, 8), 0x2100);
    a.deallocate();
    assert_eq!(a.allocate(0x10, 8), 0x2200);
    a.deallocate();
    a.deallocate();
    assert_eq!(a.allocate(0x10, 8), 0x2000);
}

#[test]
fn kernel_heap_range() {
    let mut a = BumpAllocator::empty();
    a.init(HEAP_START, HEAP_SIZE);
    assert_eq!(a.allocate(4096, 4096), HEAP_START);
    assert_eq!(HEAP_SIZE, 10 * 1024 * 1024);
}

#[test]
fn user_heap_bumps_and_fails_when_full() {
    let mut a = UserBumpAllocator::new();
    a.init(0x100, 0x40);
    assert_eq!(a.allocate(3, 1), 0x100);
    assert_eq!(a.allocate(4, 8), 0x108);
    assert_eq!(a.allocate(0x40, 1), 0);
    assert_eq!(a.allocate(0x34, 4), 0x10C);
}

#[test]
fn user_heap_default_region() {
    let mut a = UserBumpAllocator::new();
    init_heap(&mut a);
    assert_eq!(a.allocate(16, 16), 0x4000_0000);
    assert_eq!(a.allocate(2 * 1024 * 1024, 1), 0);
}
