//! The kernel heap: a bump allocator over a fixed virtual range that rewinds when every
//! allocation has been returned.

use vstd::prelude::*;
use crate::align::{align_up, is_pow2, lemma_align_up};

verus! {

/// Start of the kernel heap's virtual range.
pub const HEAP_START: u64 = 0xFFFF_9000_0000_0000;

/// Size of the kernel heap (10 MiB).
pub const HEAP_SIZE: u64 = 10485760;

/// Bump allocator state: blocks are carved from `next` upwards inside `[heap_start, heap_end)`.
pub struct BumpAllocator {
    heap_start: u64,
    heap_end: u64,
    next: u64,
    allocations: usize,
}

/// The allocator's abstract state.
pub struct HeapState {
    pub heap_start: u64,
    pub heap_end: u64,
    pub next: u64,
    pub allocations: usize,
}

/// What a request for `size` bytes aligned to `align` returns (0 for failure) and the state
/// afterwards. A zero-size request returns the alignment itself as a dangling address.
pub open spec fn allocate_spec(s: HeapState, size: usize, align: usize) -> (u64, HeapState) {
    if align == 0 || !is_pow2(align as u64) {
        (0, s)
    } else if size == 0 {
        (align as u64, s)
    } else if size > ((s.heap_end - s.heap_start) as u64) as usize {
        (0, s)
    } else {
        let start = align_up(s.next, align as u64);
        if start + size > s.heap_end {
            (0, s)
        } else {
            (start, HeapState {
                next: (start + size) as u64,
                allocations: if s.allocations == usize::MAX { s.allocations } else { (s.allocations + 1) as usize },
                ..s
            })
        }
    }
}

/// The state after one block is returned: the count drops (not below zero) and, when it
/// reaches zero, the whole heap becomes available again.
pub open spec fn deallocate_spec(s: HeapState) -> HeapState {
    let allocations: usize = if s.allocations == 0 { 0 } else { (s.allocations - 1) as usize };
    HeapState {
        allocations,
        next: if allocations == 0 { s.heap_start } else { s.next },
        ..s
    }
}

impl View for BumpAllocator {
    type V = HeapState;

    closed spec fn view(&self) -> HeapState {
        HeapState {
            heap_start: self.heap_start,
            heap_end: self.heap_end,
            next: self.next,
            allocations: self.allocations,
        }
    }
}

impl BumpAllocator {
    /// The first unused address lies inside the heap.
    pub open spec fn wf(&self) -> bool {
        self@.heap_start <= self@.next <= self@.heap_end
    }

    /// An allocator with an empty range.
    pub fn empty() -> (r: Self)
        ensures
            r.wf(),
            r@ == (HeapState { heap_start: 0, heap_end: 0, next: 0, allocations: 0 }),
    {
        BumpAllocator { heap_start: 0, heap_end: 0, next: 0, allocations: 0 }
    }

    /// Gives the allocator the range `[heap_start, heap_start + heap_size)`; the count of
    /// live allocations is left as it was.
    pub fn init(&mut self, heap_start: u64, heap_size: u64)
        requires
            heap_start + heap_size <= u64::MAX,
        ensures
            final(self).wf(),
            final(self)@ == (HeapState {
                heap_start,
                heap_end: (heap_start + heap_size) as u64,
                next: heap_start,
                allocations: old(self)@.allocations,
            }),
    {
        self.heap_start = heap_start;
        self.heap_end = heap_start + heap_size;
        self.next = heap_start;
    }

    /// The first address not yet handed out.
    pub fn next_free(&self) -> (r: u64)
        ensures
            r == self@.next,
    {
        self.next
    }

    /// Carves a block of `size` bytes aligned to `align`; returns its address, or 0 when the
    /// request is malformed or does not fit.
    pub fn allocate(&mut self, size: usize, align: usize) -> (r: u64)
        requires
            old(self).wf(),
            align != 0 && is_pow2(align as u64) && size != 0
                && size <= ((old(self)@.heap_end - old(self)@.heap_start) as u64) as usize
                ==> old(self)@.next + (align - 1) <= u64::MAX,
        ensures
            final(self).wf(),
            (r, final(self)@) == allocate_spec(old(self)@, size, align),
    {
        if align == 0 {
            return 0;
        }
        let align64 = align as u64;
        if align64 & (align64 - 1) != 0 {
            return 0;
        }
        if size == 0 {
            return align64;
        }
        if size > (self.heap_end - self.heap_start) as usize {
            return 0;
        }
        let align_mask: u64 = align64 - 1;
        let alloc_start = (self.next + align_mask) & !align_mask;
        proof {
            lemma_align_up(self.next, align64);
        }
        let alloc_end = match alloc_start.checked_add(size as u64) {
            Some(end) => end,
            None => return 0,
        };
        if alloc_end > self.heap_end {
            return 0;
        }
        self.next = alloc_end;
        self.allocations = self.allocations.saturating_add(1);
        alloc_start
    }

    /// Returns one block: the live count drops and, when it reaches zero, the heap rewinds.
    pub fn deallocate(&mut self)
        requires
            old(self).wf(),
        ensures
            final(self).wf(),
            final(self)@ == deallocate_spec(old(self)@),
    {
        self.allocations = self.allocations.saturating_sub(1);
        if self.allocations == 0 {
            self.next = self.heap_start;
        }
    }
}

/// A granted block lies inside the heap, starts at a multiple of its alignment, and starts
/// no lower than the first address not yet handed out, so it overlaps no earlier block.
pub proof fn lemma_allocation_in_heap(s: HeapState, size: usize, align: usize)
    requires
        s.heap_start <= s.next <= s.heap_end,
        align != 0 && is_pow2(align as u64) && size != 0 ==> s.next + (align - 1) <= u64::MAX,
        allocate_spec(s, size, align).0 != 0,
        size != 0,
    ensures
        ({
            let (addr, t) = allocate_spec(s, size, align);
            &&& s.next <= addr
            &&& addr + size <= s.heap_end
            &&& addr & ((align - 1) as u64) == 0
            &&& t.next == addr + size
        }),
{
    lemma_align_up(s.next, align as u64);
}

/// Once every block is returned, the next allocation starts again from the bottom of the heap.
pub proof fn lemma_release_all_rewinds(s: HeapState)
    requires
        s.allocations <= 1,
    ensures
        deallocate_spec(s).next == s.heap_start,
        deallocate_spec(s).allocations == 0,
{
}


/// Two successive allocations do not overlap: the second block starts at or after the end of
/// the first.
pub proof fn lemma_successive_allocations_disjoint(s: HeapState, size1: usize, align1: usize, size2: usize, align2: usize)
    requires
        s.heap_start <= s.next <= s.heap_end,
        size1 != 0,
        size2 != 0,
        align1 != 0 && is_pow2(align1 as u64) ==> s.next + (align1 - 1) <= u64::MAX,
        allocate_spec(s, size1, align1).0 != 0,
        align2 != 0 && is_pow2(align2 as u64) ==> allocate_spec(s, size1, align1).1.next + (align2 - 1) <= u64::MAX,
        allocate_spec(allocate_spec(s, size1, align1).1, size2, align2).0 != 0,
    ensures
        ({
            let (a1, t1) = allocate_spec(s, size1, align1);
            let (a2, _t2) = allocate_spec(t1, size2, align2);
            a1 + size1 <= a2
        }),
{
    lemma_allocation_in_heap(s, size1, align1);
    let t1 = allocate_spec(s, size1, align1).1;
    lemma_allocation_in_heap(t1, size2, align2);
}

} // verus!
