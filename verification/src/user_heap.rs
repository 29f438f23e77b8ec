//! The userspace heap: a bump allocator that never frees.

use vstd::prelude::*;

verus! {

/// Where the kernel maps each process's heap.
pub const USER_HEAP_START: usize = 0x4000_0000;

/// Size of a process's heap (2 MiB).
pub const USER_HEAP_SIZE: usize = 2097152;

/// Bump allocator over `[heap_start, heap_end)`; `next` is the first unused address.
pub struct BumpAllocator {
    heap_start: usize,
    heap_end: usize,
    next: usize,
}

/// The allocator's abstract state: start, end and first unused address.
pub type UserHeapState = (usize, usize, usize);

/// `next` rounded up to the alignment `align` (a power of two).
pub open spec fn align_up_usize(next: usize, align: usize) -> usize {
    ((next + align - 1) as usize) & !((align - 1) as usize)
}

/// What a request returns (0 for failure) and the first unused address afterwards.
pub open spec fn user_allocate_spec(s: UserHeapState, size: usize, align: usize) -> (usize, usize) {
    let aligned = align_up_usize(s.2, align);
    if aligned + size > s.1 {
        (0, s.2)
    } else {
        (aligned, (aligned + size) as usize)
    }
}

impl View for BumpAllocator {
    type V = UserHeapState;

    closed spec fn view(&self) -> UserHeapState {
        (self.heap_start, self.heap_end, self.next)
    }
}

impl BumpAllocator {
    /// An allocator with an empty range.
    pub fn new() -> (r: Self)
        ensures
            r@ == (0usize, 0usize, 0usize),
    {
        BumpAllocator { heap_start: 0, heap_end: 0, next: 0 }
    }

    /// Gives the allocator the range `[start, start + size)`.
    pub fn init(&mut self, start: usize, size: usize)
        requires
            start + size <= usize::MAX,
        ensures
            final(self)@ == (start, (start + size) as usize, start),
    {
        self.heap_start = start;
        self.heap_end = start + size;
        self.next = start;
    }

    /// The first unused address.
    pub fn next_free(&self) -> (r: usize)
        ensures
            r == self@.2,
    {
        self.next
    }

    /// Carves a block of `size` bytes aligned to `align` (a power of two); returns its
    /// address, or 0 when it does not fit.
    pub fn allocate(&mut self, size: usize, align: usize) -> (r: usize)
        requires
            align >= 1,
            old(self)@.2 + align <= usize::MAX,
            align_up_usize(old(self)@.2, align) + size <= usize::MAX,
        ensures
            final(self)@.0 == old(self)@.0,
            final(self)@.1 == old(self)@.1,
            (r, final(self)@.2) == user_allocate_spec(old(self)@, size, align),
    {
        let aligned = (self.next + align - 1) & !(align - 1);
        let next_free = aligned + size;
        if next_free > self.heap_end {
            0
        } else {
            self.next = next_free;
            aligned
        }
    }
}

/// Sets up the process heap at the range that the kernel maps for it.
pub fn init_heap(allocator: &mut BumpAllocator)
    ensures
        final(allocator)@ == (USER_HEAP_START, (USER_HEAP_START + USER_HEAP_SIZE) as usize, USER_HEAP_START),
{
    allocator.init(USER_HEAP_START, USER_HEAP_SIZE);
}


/// A granted block starts at a multiple of its (power-of-two) alignment, no lower than the
/// first unused address, and the first unused address moves past it.
pub proof fn lemma_user_allocation_aligned(s: UserHeapState, size: usize, align: usize)
    requires
        align != 0,
        align & ((align - 1) as usize) == 0,
        s.2 + align <= usize::MAX,
        align_up_usize(s.2, align) + size <= usize::MAX,
        user_allocate_spec(s, size, align).0 != 0,
    ensures
        ({
            let (addr, next) = user_allocate_spec(s, size, align);
            &&& addr & ((align - 1) as usize) == 0
            &&& addr >= s.2
            &&& next == addr + size
            &&& next <= s.1
        }),
{
    let m: usize = (align - 1) as usize;
    let y: usize = (s.2 + m) as usize;
    let n = s.2;
    assert((y & !m) & m == 0 && (y & !m) >= n) by (bit_vector)
        requires
            align != 0,
            align & ((align - 1) as usize) == 0,
            m == (align - 1) as usize,
            y == (n + m) as usize,
            y >= n,
    ;
}

} // verus!
