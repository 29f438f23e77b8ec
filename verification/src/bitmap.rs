//! Physical frame allocator backed by a bitmap (one bit per frame, set = in use).

use vstd::prelude::*;
use vstd::set_lib::*;

verus! {

/// Frame `frame` is free in `bitmap` when its bit is clear.
pub open spec fn bit_clear(bitmap: Seq<u8>, frame: int) -> bool {
    bitmap[frame / 8] & (1u8 << ((frame % 8) as u8)) == 0
}

/// The bit of frame `frame` within its byte.
pub open spec fn frame_mask(frame: int) -> u8 {
    1u8 << ((frame % 8) as u8)
}

/// `bits` with the bit of frame `frame` cleared (the frame made free).
pub open spec fn clear_bit(bits: Seq<u8>, frame: int) -> Seq<u8> {
    bits.update(frame / 8, bits[frame / 8] & !frame_mask(frame))
}

/// `bits` with the bit of frame `frame` set (the frame put in use).
pub open spec fn set_bit(bits: Seq<u8>, frame: int) -> Seq<u8> {
    bits.update(frame / 8, bits[frame / 8] | frame_mask(frame))
}

/// The frame reached after stepping `d` frames from `start` on a ring of `n` frames.
pub open spec fn cyclic(start: int, d: int, n: int) -> int {
    if start + d < n { start + d } else { start + d - n }
}

/// How many steps it takes to go from `start` to `target` on a ring of `n` frames.
pub open spec fn cyclic_distance(start: int, target: int, n: int) -> int {
    if target >= start { target - start } else { target + n - start }
}

/// `idx` is the first free frame met walking the ring of `total` frames from `cursor`.
pub open spec fn first_free_from(free: Set<int>, cursor: int, total: int, idx: int) -> bool {
    &&& free.contains(idx)
    &&& forall|d: int|
        0 <= d < cyclic_distance(cursor, idx, total) ==> !free.contains(#[trigger] cyclic(cursor, d, total))
}

proof fn lemma_byte_bits(b: u8, k: u8, j: u8)
    by (bit_vector)
    requires
        k < 8,
        j < 8,
    ensures
        (b & !(1u8 << k)) & (1u8 << k) == 0,
        (b | (1u8 << k)) & (1u8 << k) != 0,
        j != k ==> ((((b & !(1u8 << k)) & (1u8 << j)) == 0) == ((b & (1u8 << j)) == 0)),
        j != k ==> ((((b | (1u8 << k)) & (1u8 << j)) == 0) == ((b & (1u8 << j)) == 0)),
        (0xFFu8 & (1u8 << j)) != 0,
        (b & (1u8 << k)) == 0 ==> (b & !(1u8 << k)) == b && ((b | (1u8 << k)) & !(1u8 << k)) == b,
        (b & (1u8 << k)) != 0 ==> (b | (1u8 << k)) == b && ((b & !(1u8 << k)) | (1u8 << k)) == b,
{
}

proof fn lemma_same_bit_same_frame(i: int, j: int)
    requires
        0 <= i,
        0 <= j,
        i / 8 == j / 8,
        i % 8 == j % 8,
    ensures
        i == j,
{
}

/// Allocator of physical frames over a bitmap that the caller provides and that the allocator
/// writes in place. Bit `i` of the bitmap is set when frame `i` is in use.
pub struct BitmapAllocator<'a> {
    bitmap: &'a mut [u8],
    total_frames: usize,
    free_frames: usize,
    last_alloc_index: usize,
}

impl<'a> BitmapAllocator<'a> {
    /// The bytes of the bitmap, as they stand in the caller's buffer.
    pub closed spec fn bits(&self) -> Seq<u8> {
        self.bitmap@
    }

    /// Number of frames that the allocator manages.
    pub closed spec fn total(&self) -> nat {
        self.total_frames as nat
    }

    /// Number of frames that the bitmap has a bit for.
    pub closed spec fn capacity(&self) -> nat {
        8 * self.bitmap@.len()
    }

    /// The frames that are currently free: managed frames that have a bit, and whose bit is clear.
    pub closed spec fn free_set(&self) -> Set<int> {
        Set::new(|i: int| 0 <= i < self.total_frames && i < 8 * self.bitmap@.len() && bit_clear(self.bitmap@, i))
    }

    /// The frame at which the next search for a free frame starts.
    pub closed spec fn cursor(&self) -> int {
        self.last_alloc_index as int
    }

    pub closed spec fn wf(&self) -> bool {
        &&& self.free_set().finite()
        &&& self.free_frames == self.free_set().len()
        &&& (self.last_alloc_index < self.total_frames || self.last_alloc_index == 0)
    }

    /// Every frame that the search for a free frame visits, from the cursor up to and
    /// including the first free one, has a bit in the bitmap.
    pub open spec fn search_in_bounds(&self) -> bool {
        forall|d: int|
            0 <= d < self.total() && (forall|e: int| 0 <= e < d ==> !self.free_set().contains(#[trigger] cyclic(self.cursor(), e, self.total() as int)))
                ==> #[trigger] cyclic(self.cursor(), d, self.total() as int) < self.capacity()
    }

    /// Facts that hold of every well-formed allocator.
    pub proof fn lemma_wf(&self)
        requires
            self.wf(),
        ensures
            self.free_set().finite(),
            self.free_set().len() <= self.total(),
            forall|i: int| #[trigger] self.free_set().contains(i) ==> 0 <= i < self.total() && i < self.capacity(),
            self.cursor() < self.total() || self.cursor() == 0,
            self.total() <= self.capacity() ==> self.search_in_bounds(),
            self.capacity() == 8 * self.bits().len(),
            self.total() <= usize::MAX,
            forall|i: int| #[trigger] self.free_set().contains(i)
                <==> (0 <= i < self.total() && i < self.capacity() && bit_clear(self.bits(), i)),
    {
        self.lemma_free_set_bounded();
    }

    proof fn lemma_free_set_bounded(&self)
        ensures
            self.free_set().subset_of(set_int_range(0, self.total_frames as int)),
            self.free_set().finite(),
            self.free_set().len() <= self.total_frames,
    {
        lemma_int_range(0, self.total_frames as int);
        lemma_len_subset(self.free_set(), set_int_range(0, self.total_frames as int));
    }

    /// Takes over `bitmap`, which it writes in place, to manage `total_frames` frames, all of
    /// them initially in use: every byte of `bitmap` is set to 0xFF.
    pub fn new(bitmap: &'a mut [u8], total_frames: usize) -> (r: Self)
        ensures
            r.wf(),
            r.total() == total_frames,
            r.bits().len() == old(bitmap)@.len(),
            forall|i: int| 0 <= i < r.bits().len() ==> #[trigger] r.bits()[i] == 0xFFu8,
            r.free_set() == Set::<int>::empty(),
            r.cursor() == 0,
    {
        let len = bitmap.len();
        let mut i: usize = 0;
        while i < len
            invariant
                len == bitmap@.len(),
                len == old(bitmap)@.len(),
                i <= len,
                forall|j: int| 0 <= j < i ==> bitmap@[j] == 0xFFu8,
            decreases len - i,
        {
            bitmap[i] = 0xFF;
            i = i + 1;
        }
        let r = BitmapAllocator {
            bitmap,
            total_frames,
            free_frames: 0,
            last_alloc_index: 0,
        };
        proof {
            assert forall|f: int| !r.free_set().contains(f) by {
                if 0 <= f < total_frames && f < 8 * len {
                    lemma_byte_bits(0, 0, (f % 8) as u8);
                }
            }
            assert(r.free_set() =~= Set::<int>::empty());
        }
        r
    }

    /// Marks `frame` free. Frames outside the managed range are ignored.
    pub fn mark_free(&mut self, frame: usize)
        requires
            old(self).wf(),
            frame < old(self).total() ==> frame < old(self).capacity(),
        ensures
            final(self).wf(),
            final(self).total() == old(self).total(),
            final(self).capacity() == old(self).capacity(),
            final(self).cursor() == old(self).cursor(),
            final(self).free_set() == (if frame < old(self).total() {
                old(self).free_set().insert(frame as int)
            } else {
                old(self).free_set()
            }),
            final(self).bits() == (if frame < old(self).total() {
                clear_bit(old(self).bits(), frame as int)
            } else {
                old(self).bits()
            }),
    {
        if frame < self.total_frames {
            let byte_idx = frame / 8;
            let bit_idx = (frame % 8) as u8;
            let mask: u8 = 1u8 << bit_idx;
            if self.bitmap[byte_idx] & mask != 0 {
                let ghost old_set = self.free_set();
                let old_byte = self.bitmap[byte_idx];
                proof {
                    self.lemma_free_set_bounded();
                    lemma_int_range(0, self.total_frames as int);
                    assert(!old_set.contains(frame as int));
                    lemma_len_subset(
                        old_set,
                        set_int_range(0, self.total_frames as int).remove(frame as int),
                    );
                }
                self.bitmap[byte_idx] = old_byte & !mask;
                self.free_frames = self.free_frames + 1;
                proof {
                    assert forall|f: int| #[trigger] self.free_set().contains(f) == old_set.insert(frame as int).contains(f) by {
                        if 0 <= f < self.total_frames {
                            lemma_byte_bits(old_byte, bit_idx, (f % 8) as u8);
                            if f / 8 == byte_idx as int && f % 8 == bit_idx as int {
                                lemma_same_bit_same_frame(f, frame as int);
                            }
                        }
                    }
                    assert(self.free_set() =~= old_set.insert(frame as int));
                    self.lemma_free_set_bounded();
                }
            } else {
                proof {
                    lemma_byte_bits(self.bitmap@[byte_idx as int], bit_idx, bit_idx);
                    assert(self.bitmap@ =~= clear_bit(self.bitmap@, frame as int));
                }
                assert(self.free_set().contains(frame as int));
                assert(self.free_set() =~= self.free_set().insert(frame as int));
            }
        }
    }

    /// Marks `frame` in use. Frames outside the managed range are ignored.
    pub fn mark_used(&mut self, frame: usize)
        requires
            old(self).wf(),
            frame < old(self).total() ==> frame < old(self).capacity(),
        ensures
            final(self).wf(),
            final(self).total() == old(self).total(),
            final(self).capacity() == old(self).capacity(),
            final(self).cursor() == old(self).cursor(),
            final(self).free_set() == (if frame < old(self).total() {
                old(self).free_set().remove(frame as int)
            } else {
                old(self).free_set()
            }),
            final(self).bits() == (if frame < old(self).total() {
                set_bit(old(self).bits(), frame as int)
            } else {
                old(self).bits()
            }),
    {
        if frame < self.total_frames {
            let byte_idx = frame / 8;
            let bit_idx = (frame % 8) as u8;
            let mask: u8 = 1u8 << bit_idx;
            if self.bitmap[byte_idx] & mask == 0 {
                let ghost old_set = self.free_set();
                let old_byte = self.bitmap[byte_idx];
                proof {
                    assert(old_set.contains(frame as int));
                }
                self.bitmap[byte_idx] = old_byte | mask;
                self.free_frames = self.free_frames - 1;
                proof {
                    assert forall|f: int| #[trigger] self.free_set().contains(f) == old_set.remove(frame as int).contains(f) by {
                        if 0 <= f < self.total_frames {
                            lemma_byte_bits(old_byte, bit_idx, (f % 8) as u8);
                            if f / 8 == byte_idx as int && f % 8 == bit_idx as int {
                                lemma_same_bit_same_frame(f, frame as int);
                            }
                        }
                    }
                    assert(self.free_set() =~= old_set.remove(frame as int));
                }
            } else {
                proof {
                    lemma_byte_bits(self.bitmap@[byte_idx as int], bit_idx, bit_idx);
                    assert(self.bitmap@ =~= set_bit(self.bitmap@, frame as int));
                }
                assert(!self.free_set().contains(frame as int));
                assert(self.free_set() =~= self.free_set().remove(frame as int));
            }
        }
    }

    /// Allocates the first free frame found by walking the ring of frames from the cursor;
    /// returns `None` when no frame is free.
    pub fn allocate(&mut self) -> (r: Option<usize>)
        requires
            old(self).wf(),
            old(self).free_set().len() > 0 ==> old(self).search_in_bounds(),
        ensures
            final(self).wf(),
            final(self).total() == old(self).total(),
            final(self).capacity() == old(self).capacity(),
            r is None <==> old(self).free_set().len() == 0,
            r is None ==> {
                &&& final(self).free_set() == old(self).free_set()
                &&& final(self).cursor() == old(self).cursor()
                &&& final(self).bits() == old(self).bits()
            },
            r matches Some(idx) ==> {
                &&& final(self).bits() == set_bit(old(self).bits(), idx as int)
                &&& first_free_from(old(self).free_set(), old(self).cursor(), old(self).total() as int, idx as int)
                &&& final(self).free_set() == old(self).free_set().remove(idx as int)
                &&& final(self).cursor() == idx
            },
    {
        if self.free_frames == 0 {
            return None;
        }
        proof {
            self.lemma_free_set_bounded();
        }
        let start_idx = self.last_alloc_index;
        let total = self.total_frames;
        let ghost set0 = self.free_set();
        let mut i: usize = 0;
        while i < total
            invariant
                self.wf(),
                set0 == self.free_set(),
                set0 == old(self).free_set(),
                self.total() == old(self).total(),
                self.cursor() == old(self).cursor(),
                self.capacity() == old(self).capacity(),
                self.bits() == old(self).bits(),
                old(self).search_in_bounds(),
                self.free_frames > 0,
                total == self.total_frames,
                start_idx == self.last_alloc_index,
                start_idx < total,
                i <= total,
                forall|d: int| 0 <= d < i ==> !set0.contains(#[trigger] cyclic(start_idx as int, d, total as int)),
            decreases total - i,
        {
            let idx = if i < total - start_idx { start_idx + i } else { i - (total - start_idx) };
            assert(idx as int == cyclic(start_idx as int, i as int, total as int));
            let byte_idx = idx / 8;
            let bit_idx = (idx % 8) as u8;
            let mask: u8 = 1u8 << bit_idx;
            if self.bitmap[byte_idx] & mask == 0 {
                proof {
                    assert(set0.contains(idx as int));
                    assert(cyclic_distance(start_idx as int, idx as int, total as int) == i);
                }
                self.mark_used(idx);
                self.last_alloc_index = idx;
                return Some(idx);
            }
            i = i + 1;
        }
        proof {
            assert forall|f: int| !set0.contains(f) by {
                if set0.contains(f) {
                    let d = cyclic_distance(start_idx as int, f, total as int);
                    assert(cyclic(start_idx as int, d, total as int) == f);
                }
            }
            assert(set0 =~= Set::<int>::empty());
        }
        None
    }

    /// Returns `frame` to the pool of free frames.
    pub fn free(&mut self, frame: usize)
        requires
            old(self).wf(),
            frame < old(self).total() ==> frame < old(self).capacity(),
        ensures
            final(self).wf(),
            final(self).total() == old(self).total(),
            final(self).capacity() == old(self).capacity(),
            final(self).cursor() == old(self).cursor(),
            final(self).free_set() == (if frame < old(self).total() {
                old(self).free_set().insert(frame as int)
            } else {
                old(self).free_set()
            }),
            final(self).bits() == (if frame < old(self).total() {
                clear_bit(old(self).bits(), frame as int)
            } else {
                old(self).bits()
            }),
    {
        self.mark_free(frame);
    }

    /// Number of free frames.
    pub fn free_frames(&self) -> (r: usize)
        requires
            self.wf(),
        ensures
            r == self.free_set().len(),
    {
        self.free_frames
    }

    /// Number of frames that the allocator manages.
    pub fn total_frames(&self) -> (r: usize)
        ensures
            r == self.total(),
    {
        self.total_frames
    }
}


/// The frame that an allocation picks is determined: two frames that are both the first free
/// one on the walk from the same cursor are the same frame.
pub proof fn lemma_first_free_unique(free: Set<int>, cursor: int, total: int, i: int, j: int)
    requires
        0 <= cursor < total,
        0 <= i < total,
        0 <= j < total,
        first_free_from(free, cursor, total, i),
        first_free_from(free, cursor, total, j),
    ensures
        i == j,
{
    let di = cyclic_distance(cursor, i, total);
    let dj = cyclic_distance(cursor, j, total);
    assert(cyclic(cursor, di, total) == i);
    assert(cyclic(cursor, dj, total) == j);
    if di < dj {
        assert(!free.contains(cyclic(cursor, di, total)));
    } else if dj < di {
        assert(!free.contains(cyclic(cursor, dj, total)));
    }
}

/// When exactly one frame is free, allocation hands out that frame.
pub proof fn lemma_single_free_frame_allocated(cursor: int, total: int, f: int, idx: int)
    requires
        first_free_from(set![f], cursor, total, idx),
    ensures
        idx == f,
{
}

/// Putting a free frame in use and then freeing it gives back the bitmap bytes exactly, and
/// so does freeing a frame in use and then putting it back in use: in particular an
/// allocation followed by freeing the frame it returned leaves the caller's buffer as it was.
pub proof fn lemma_use_then_free_restores_bits(bits: Seq<u8>, f: int)
    requires
        0 <= f,
        f / 8 < bits.len(),
    ensures
        bit_clear(bits, f) ==> clear_bit(set_bit(bits, f), f) == bits,
        !bit_clear(bits, f) ==> set_bit(clear_bit(bits, f), f) == bits,
{
    let k = (f % 8) as u8;
    lemma_byte_bits(bits[f / 8], k, k);
    assert(clear_bit(set_bit(bits, f), f) =~= bits || !bit_clear(bits, f));
    assert(set_bit(clear_bit(bits, f), f) =~= bits || bit_clear(bits, f));
}

/// Allocating a free frame and then freeing it gives back both the bitmap bytes and the free
/// frames that the allocator had before.
pub proof fn lemma_allocate_then_free_restores(a: BitmapAllocator, idx: int)
    requires
        a.wf(),
        a.free_set().contains(idx),
    ensures
        clear_bit(set_bit(a.bits(), idx), idx) == a.bits(),
        a.free_set().remove(idx).insert(idx) == a.free_set(),
{
    a.lemma_wf();
    lemma_use_then_free_restores_bits(a.bits(), idx);
    assert(a.free_set().remove(idx).insert(idx) =~= a.free_set());
}

/// Freeing a frame in use and then marking it used again restores the free frames, and so
/// does marking a free frame used and then freeing it.
pub proof fn lemma_free_then_use_restores(free: Set<int>, f: int)
    ensures
        !free.contains(f) ==> free.insert(f).remove(f) == free,
        free.contains(f) ==> free.remove(f).insert(f) == free,
{
    if !free.contains(f) {
        assert(free.insert(f).remove(f) =~= free);
    } else {
        assert(free.remove(f).insert(f) =~= free);
    }
}

} // verus!
