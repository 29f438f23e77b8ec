//! The kernel's physical frame allocator: sizing its bitmap from the memory map, filling it,
//! and handing out frames by physical address.

use vstd::prelude::*;
use crate::bitmap::{clear_bit, first_free_from, lemma_allocate_then_free_restores, set_bit, BitmapAllocator};

verus! {

/// Size of a physical frame.
pub const PAGE_SIZE: u64 = 4096;

/// One entry of the boot memory map.
#[derive(Debug, Clone, Copy, PartialEq, Eq)]
pub struct MemoryRegion {
    pub base: u64,
    pub length: u64,
    /// The region is ordinary RAM free for the kernel to use.
    pub usable: bool,
}

/// How the frame bitmap is laid out.
#[derive(Debug, Clone, Copy, PartialEq, Eq)]
pub struct FrameBitmapPlan {
    /// Frames from address 0 up to the end of the highest region.
    pub total_frames: usize,
    /// Bytes of bitmap needed, one bit per frame.
    pub bitmap_bytes: usize,
    /// Physical address where the bitmap is stored.
    pub bitmap_phys: u64,
}

/// The highest end address among the first `n` regions (0 when there are none).
pub open spec fn highest_end(regions: Seq<MemoryRegion>, n: nat) -> nat
    decreases n,
{
    if n == 0 {
        0
    } else {
        let prev = highest_end(regions, (n - 1) as nat);
        let end = regions[n - 1].base + regions[n - 1].length;
        if end > prev { end as nat } else { prev }
    }
}

/// The base of the first usable region, from index `i` on, holding at least `need` bytes;
/// 0 when there is none.
pub open spec fn first_fit_from(regions: Seq<MemoryRegion>, need: u64, i: int) -> u64
    decreases regions.len() - i,
{
    if i < 0 || i >= regions.len() {
        0
    } else if regions[i].usable && regions[i].length >= need {
        regions[i].base
    } else {
        first_fit_from(regions, need, i + 1)
    }
}

/// No region's end address passes the top of the address space.
pub open spec fn regions_in_range(regions: Seq<MemoryRegion>) -> bool {
    forall|i: int| 0 <= i < regions.len() ==> #[trigger] regions[i].base + regions[i].length <= u64::MAX
}

/// The bitmap layout for `regions`, or `None` when no usable region at a non-zero address can
/// hold the bitmap.
pub open spec fn plan_spec(regions: Seq<MemoryRegion>) -> Option<FrameBitmapPlan> {
    let total = ((highest_end(regions, regions.len()) / 4096) as u64) as usize;
    let bytes = ((total + 7) / 8) as usize;
    let base = first_fit_from(regions, bytes as u64, 0);
    if base == 0 {
        None
    } else {
        Some(FrameBitmapPlan { total_frames: total, bitmap_bytes: bytes, bitmap_phys: base })
    }
}

/// Sizes the frame bitmap from the memory map and picks where it is stored.
pub fn plan_frame_bitmap(regions: &Vec<MemoryRegion>) -> (r: Option<FrameBitmapPlan>)
    requires
        regions_in_range(regions@),
    ensures
        r == plan_spec(regions@),
{
    let n = regions.len();
    let mut highest: u64 = 0;
    let mut i: usize = 0;
    while i < n
        invariant
            n == regions@.len(),
            regions_in_range(regions@),
            i <= n,
            highest == highest_end(regions@, i as nat),
        decreases n - i,
    {
        let top = regions[i].base + regions[i].length;
        if top > highest {
            highest = top;
        }
        i = i + 1;
    }
    let total_frames = (highest / PAGE_SIZE) as usize;
    let bitmap_bytes = total_frames / 8 + if total_frames % 8 == 0 { 0 } else { 1 };
    assert(bitmap_bytes == (total_frames + 7) / 8);
    let need = bitmap_bytes as u64;
    let mut bitmap_phys: u64 = 0;
    let mut found = false;
    let mut j: usize = 0;
    while j < n && !found
        invariant
            n == regions@.len(),
            j <= n,
            found ==> bitmap_phys == first_fit_from(regions@, need, 0),
            !found ==> bitmap_phys == 0,
            !found ==> first_fit_from(regions@, need, 0) == first_fit_from(regions@, need, j as int),
        decreases n - j + (if found { 0int } else { 1int }),
    {
        if regions[j].usable && regions[j].length >= need {
            bitmap_phys = regions[j].base;
            found = true;
        } else {
            j = j + 1;
        }
    }
    if bitmap_phys == 0 {
        None
    } else {
        Some(FrameBitmapPlan { total_frames, bitmap_bytes, bitmap_phys })
    }
}

/// Frames `[start, end)` that lie below `total`.
pub open spec fn frame_range(start: int, end: int, total: int) -> Set<int> {
    Set::new(|f: int| start <= f < end && 0 <= f < total)
}

/// Marks the frames `[start, end)` free (those past the allocator's range are ignored).
pub fn mark_range_free(allocator: &mut BitmapAllocator, start: usize, end: usize)
    requires
        old(allocator).wf(),
        old(allocator).total() <= old(allocator).capacity(),
    ensures
        final(allocator).wf(),
        final(allocator).total() == old(allocator).total(),
        final(allocator).capacity() == old(allocator).capacity(),
        final(allocator).cursor() == old(allocator).cursor(),
        final(allocator).free_set() == old(allocator).free_set().union(
            frame_range(start as int, end as int, old(allocator).total() as int),
        ),
{
    let mut f = start;
    while f < end
        invariant
            allocator.wf(),
            allocator.total() == old(allocator).total(),
            allocator.capacity() == old(allocator).capacity(),
            allocator.total() <= allocator.capacity(),
            allocator.cursor() == old(allocator).cursor(),
            start <= f,
            start <= end ==> f <= end,
            start > end ==> f == start,
            allocator.free_set() == old(allocator).free_set().union(
                frame_range(start as int, f as int, old(allocator).total() as int),
            ),
        decreases end - f,
    {
        let ghost prev = allocator.free_set();
        allocator.mark_free(f);
        proof {
            let total = old(allocator).total() as int;
            let target = old(allocator).free_set().union(frame_range(start as int, f + 1, total));
            assert forall|x: int| #[trigger] allocator.free_set().contains(x) == target.contains(x) by {
                if x == f as int {
                } else {
                    assert(frame_range(start as int, f as int, total).contains(x) == frame_range(start as int, f + 1, total).contains(x));
                }
            }
            assert(allocator.free_set() =~= target);
        }
        f = f + 1;
    }
    assert(frame_range(start as int, f as int, old(allocator).total() as int)
        =~= frame_range(start as int, end as int, old(allocator).total() as int));
    assert(allocator.free_set() =~= old(allocator).free_set().union(
        frame_range(start as int, end as int, old(allocator).total() as int),
    ));
}

/// Marks the frames `[start, end)` in use (those past the allocator's range are ignored).
pub fn mark_range_used(allocator: &mut BitmapAllocator, start: usize, end: usize)
    requires
        old(allocator).wf(),
        old(allocator).total() <= old(allocator).capacity(),
    ensures
        final(allocator).wf(),
        final(allocator).total() == old(allocator).total(),
        final(allocator).capacity() == old(allocator).capacity(),
        final(allocator).cursor() == old(allocator).cursor(),
        final(allocator).free_set() == old(allocator).free_set().difference(
            frame_range(start as int, end as int, old(allocator).total() as int),
        ),
{
    let mut f = start;
    while f < end
        invariant
            allocator.wf(),
            allocator.total() == old(allocator).total(),
            allocator.capacity() == old(allocator).capacity(),
            allocator.total() <= allocator.capacity(),
            allocator.cursor() == old(allocator).cursor(),
            start <= f,
            start <= end ==> f <= end,
            start > end ==> f == start,
            allocator.free_set() == old(allocator).free_set().difference(
                frame_range(start as int, f as int, old(allocator).total() as int),
            ),
        decreases end - f,
    {
        let ghost prev = allocator.free_set();
        allocator.mark_used(f);
        proof {
            let total = old(allocator).total() as int;
            let target = old(allocator).free_set().difference(frame_range(start as int, f + 1, total));
            assert forall|x: int| #[trigger] allocator.free_set().contains(x) == target.contains(x) by {
                if x == f as int {
                } else {
                    assert(frame_range(start as int, f as int, total).contains(x) == frame_range(start as int, f + 1, total).contains(x));
                }
            }
            assert(allocator.free_set() =~= target);
        }
        f = f + 1;
    }
    assert(frame_range(start as int, f as int, old(allocator).total() as int)
        =~= frame_range(start as int, end as int, old(allocator).total() as int));
    assert(allocator.free_set() =~= old(allocator).free_set().difference(
        frame_range(start as int, end as int, old(allocator).total() as int),
    ));
}

/// First frame of a region.
pub open spec fn region_first_frame(r: MemoryRegion) -> int {
    ((r.base / 4096) as u64) as usize as int
}

/// End (exclusive) of a region's frames.
pub open spec fn region_end_frame(r: MemoryRegion) -> int {
    (((r.base + r.length) / 4096) as u64) as usize as int
}

/// Frames that some usable region among the first `n` covers, below `total`.
pub open spec fn usable_frames(regions: Seq<MemoryRegion>, n: nat, total: int) -> Set<int>
    decreases n,
{
    if n == 0 {
        Set::empty()
    } else {
        let r = regions[n - 1];
        let here = if r.usable {
            frame_range(region_first_frame(r), region_end_frame(r), total)
        } else {
            Set::empty()
        };
        usable_frames(regions, (n - 1) as nat, total).union(here)
    }
}

/// The frames that hold a bitmap of `bitmap_bytes` bytes stored at `bitmap_phys`.
pub open spec fn bitmap_frames(bitmap_phys: u64, bitmap_bytes: usize, total: int) -> Set<int> {
    let first = ((bitmap_phys / 4096) as u64) as usize as int;
    frame_range(first, first + (bitmap_bytes + 4095) / 4096, total)
}

/// Marks every frame of the usable regions free, then the frames holding the bitmap in use.
pub fn populate(allocator: &mut BitmapAllocator, regions: &Vec<MemoryRegion>, plan: &FrameBitmapPlan)
    requires
        old(allocator).wf(),
        old(allocator).total() <= old(allocator).capacity(),
        regions_in_range(regions@),
        (plan.bitmap_phys / 4096) + (plan.bitmap_bytes + 4095) / 4096 <= usize::MAX,
    ensures
        final(allocator).wf(),
        final(allocator).total() == old(allocator).total(),
        final(allocator).capacity() == old(allocator).capacity(),
        final(allocator).cursor() == old(allocator).cursor(),
        final(allocator).free_set() == old(allocator).free_set().union(
            usable_frames(regions@, regions@.len(), old(allocator).total() as int),
        ).difference(bitmap_frames(plan.bitmap_phys, plan.bitmap_bytes, old(allocator).total() as int)),
{
    let ghost total = old(allocator).total() as int;
    let n = regions.len();
    let mut i: usize = 0;
    while i < n
        invariant
            n == regions@.len(),
            regions_in_range(regions@),
            i <= n,
            allocator.wf(),
            allocator.total() == total,
            allocator.capacity() == old(allocator).capacity(),
            allocator.total() <= allocator.capacity(),
            allocator.cursor() == old(allocator).cursor(),
            allocator.free_set() == old(allocator).free_set().union(usable_frames(regions@, i as nat, total)),
        decreases n - i,
    {
        let r = regions[i];
        if r.usable {
            let start_frame = (r.base / PAGE_SIZE) as usize;
            let end_frame = ((r.base + r.length) / PAGE_SIZE) as usize;
            mark_range_free(allocator, start_frame, end_frame);
        }
        i = i + 1;
        proof {
            assert(allocator.free_set() =~= old(allocator).free_set().union(usable_frames(regions@, i as nat, total)));
        }
    }
    let first = (plan.bitmap_phys / PAGE_SIZE) as usize;
    let bitmap_pages = plan.bitmap_bytes / 4096 + if plan.bitmap_bytes % 4096 == 0 { 0 } else { 1 };
    assert(bitmap_pages == (plan.bitmap_bytes + 4095) / 4096);
    mark_range_used(allocator, first, first + bitmap_pages);
}

/// Allocates a frame and gives its physical address: the first free frame on the walk from the
/// allocator's cursor. `None` when the allocator is not set up or no frame is free.
pub fn alloc_frame(frames: &mut Option<BitmapAllocator>) -> (r: Option<u64>)
    requires
        *old(frames) matches Some(a) ==> {
            &&& a.wf()
            &&& forall|f: int| #[trigger] first_free_from(a.free_set(), a.cursor(), a.total() as int, f) ==> f * 4096 <= u64::MAX
            &&& a.free_set().len() > 0 ==> a.search_in_bounds()
        },
    ensures
        match *old(frames) {
            None => r is None && *final(frames) is None,
            Some(a) => match *final(frames) {
                None => false,
                Some(b) => {
                    &&& b.wf()
                    &&& b.total() == a.total()
                    &&& b.capacity() == a.capacity()
                    &&& (r is None <==> a.free_set().len() == 0)
                    &&& r is None ==> b.free_set() == a.free_set() && b.bits() == a.bits()
                    &&& r matches Some(addr) ==> {
                        &&& addr % 4096 == 0
                        &&& first_free_from(a.free_set(), a.cursor(), a.total() as int, (addr / 4096) as int)
                        &&& b.free_set() == a.free_set().remove((addr / 4096) as int)
                        &&& b.bits() == set_bit(a.bits(), (addr / 4096) as int)
                        &&& b.cursor() == addr / 4096
                    }
                },
            },
        },
{
    match frames {
        None => None,
        Some(a) => {
            proof {
                a.lemma_wf();
            }
            let got = a.allocate();
            match got {
                Some(f) => {
                    assert(first_free_from(old(frames)->Some_0.free_set(), old(frames)->Some_0.cursor(), old(frames)->Some_0.total() as int, f as int));
                    Some(f as u64 * PAGE_SIZE)
                },
                None => None,
            }
        },
    }
}

/// Returns the frame at physical address `phys_addr` (rounded down to its frame) to the pool.
pub fn free_frame(frames: &mut Option<BitmapAllocator>, phys_addr: u64)
    requires
        *old(frames) matches Some(a) ==> {
            let f = ((phys_addr / 4096) as u64) as usize;
            &&& a.wf()
            &&& (f as int) < a.total() ==> (f as int) < a.capacity()
        },
    ensures
        match *old(frames) {
            None => *final(frames) is None,
            Some(a) => match *final(frames) {
                None => false,
                Some(b) => {
                    let f = ((phys_addr / 4096) as u64) as usize;
                    &&& b.wf()
                    &&& b.total() == a.total()
                    &&& b.capacity() == a.capacity()
                    &&& b.cursor() == a.cursor()
                    &&& b.free_set() == (if (f as int) < a.total() { a.free_set().insert(f as int) } else { a.free_set() })
                    &&& b.bits() == (if (f as int) < a.total() { clear_bit(a.bits(), f as int) } else { a.bits() })
                },
            },
        },
{
    match frames {
        None => {},
        Some(a) => {
            a.free((phys_addr / PAGE_SIZE) as usize);
        },
    }
}

/// Freeing the address that a frame allocation returned puts the allocator's bitmap bytes and
/// free frames back as they were before the allocation.
pub proof fn lemma_alloc_frame_then_free_frame_restores(a: BitmapAllocator, addr: u64)
    requires
        a.wf(),
        addr % 4096 == 0,
        a.free_set().contains((addr / 4096) as int),
    ensures
        ({
            let f = ((addr / 4096) as u64) as usize;
            &&& f as int == addr / 4096
            &&& (f as int) < a.total()
            &&& clear_bit(set_bit(a.bits(), (addr / 4096) as int), f as int) == a.bits()
            &&& a.free_set().remove((addr / 4096) as int).insert(f as int) == a.free_set()
        }),
{
    a.lemma_wf();
    lemma_allocate_then_free_restores(a, (addr / 4096) as int);
}

} // verus!
