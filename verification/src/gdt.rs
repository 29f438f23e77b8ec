//! The global descriptor table and the task-state segment.

use vstd::prelude::*;

verus! {

/// Number of descriptor slots.
pub const GDT_ENTRY_COUNT: usize = 7;

/// Size in bytes of the task-state segment.
pub const TSS_SIZE: u64 = 104;

/// Slot index of the kernel code descriptor.
pub const KERNEL_CODE: u16 = 1;
/// Slot index of the kernel data descriptor.
pub const KERNEL_DATA: u16 = 2;
/// Slot index of the user data descriptor.
pub const USER_DATA: u16 = 3;
/// Slot index of the user code descriptor.
pub const USER_CODE: u16 = 4;
/// Slot index of the task-state segment descriptor, which takes slots 5 and 6.
pub const TSS: u16 = 5;

/// A segment selector: the descriptor's slot index times eight, plus privilege bits.
#[derive(Clone, Copy)]
pub struct SegmentSelector(pub u16);

/// The selector of the kernel code segment.
pub fn kernel_code_selector() -> (r: SegmentSelector)
    ensures
        r.0 == KERNEL_CODE * 8,
{
    SegmentSelector(KERNEL_CODE * 8)
}

/// The selector of the kernel data segment.
pub fn kernel_data_selector() -> (r: SegmentSelector)
    ensures
        r.0 == KERNEL_DATA * 8,
{
    SegmentSelector(KERNEL_DATA * 8)
}

/// The low word of a 64-bit available-TSS descriptor for a segment at `base`.
pub open spec fn tss_descriptor_low(base: u64) -> u64 {
    let limit: u64 = (TSS_SIZE - 1) as u64;
    0x0000_8000_0000_0000u64 | 0x0000_0900_0000_0000u64
        | (limit & 0xFFFFu64) | ((limit & 0xF0000u64) << 32u64)
        | ((base & 0xFF_FFFFu64) << 16u64) | ((base & 0xFF00_0000u64) << 32u64)
}

/// The high word of a 64-bit TSS descriptor for a segment at `base`.
pub open spec fn tss_descriptor_high(base: u64) -> u64 {
    base >> 32u64
}

/// The descriptor table: null, kernel code, kernel data, user data, user code, and the two
/// words of the TSS descriptor.
pub struct GlobalDescriptorTable {
    pub entries: [u64; 7],
}

impl GlobalDescriptorTable {
    /// The table installed at boot, with an empty TSS descriptor.
    pub fn initial() -> (r: Self)
        ensures
            r.entries@[0] == 0,
            r.entries@[1] == 0x0020_9800_0000_0000u64,
            r.entries@[2] == 0x0000_9200_0000_0000u64,
            r.entries@[3] == 0x0000_F200_0000_0000u64,
            r.entries@[4] == 0x0020_F800_0000_0000u64,
            r.entries@[5] == 0,
            r.entries@[6] == 0,
    {
        GlobalDescriptorTable {
            entries: [
                0,
                // Kernel code: executable, readable, present, 64-bit.
                0x0020_9800_0000_0000,
                // Kernel data: writable, present.
                0x0000_9200_0000_0000,
                // User data: writable, present, privilege level 3.
                0x0000_F200_0000_0000,
                // User code: executable, readable, present, 64-bit, privilege level 3.
                0x0020_F800_0000_0000,
                0,
                0,
            ],
        }
    }

    /// Points the TSS descriptor (slots 5 and 6) at the task-state segment at `tss`.
    pub fn set_tss(&mut self, tss: u64)
        ensures
            final(self).entries@ == old(self).entries@.update(TSS as int, tss_descriptor_low(tss)).update(
                TSS as int + 1,
                tss_descriptor_high(tss),
            ),
    {
        let ptr = tss;
        let mut low: u64 = 0x0000_8000_0000_0000u64 | 0x0000_0900_0000_0000u64;
        let limit: u64 = TSS_SIZE - 1;
        low = low | (limit & 0xFFFF) | ((limit & 0xF0000) << 32u64);
        low = low | ((ptr & 0xFF_FFFF) << 16u64) | ((ptr & 0xFF00_0000) << 32u64);
        let high = ptr >> 32u64;
        self.entries[TSS as usize] = low;
        self.entries[TSS as usize + 1] = high;
    }
}

/// Decoding a TSS descriptor gives back the segment's base address and limit, and the
/// descriptor is present and typed as an available 64-bit TSS.
pub proof fn lemma_tss_descriptor_decodes(base: u64)
    ensures
        ((tss_descriptor_low(base) >> 16u64) & 0xFF_FFFFu64)
            | (((tss_descriptor_low(base) >> 56u64) & 0xFFu64) << 24u64)
            | (tss_descriptor_high(base) << 32u64) == base,
        (tss_descriptor_low(base) & 0xFFFFu64) | (((tss_descriptor_low(base) >> 48u64) & 0xFu64) << 16u64)
            == TSS_SIZE - 1,
        (tss_descriptor_low(base) >> 47u64) & 1u64 == 1,
        (tss_descriptor_low(base) >> 40u64) & 0xFu64 == 9,
{
    let low = tss_descriptor_low(base);
    let high = tss_descriptor_high(base);
    assert(((low >> 16u64) & 0xFF_FFFFu64) | (((low >> 56u64) & 0xFFu64) << 24u64) | (high << 32u64) == base
        && (low & 0xFFFFu64) | (((low >> 48u64) & 0xFu64) << 16u64) == 103
        && (low >> 47u64) & 1u64 == 1
        && (low >> 40u64) & 0xFu64 == 9) by (bit_vector)
        requires
            low == 0x0000_8000_0000_0000u64 | 0x0000_0900_0000_0000u64
                | (103u64 & 0xFFFFu64) | ((103u64 & 0xF0000u64) << 32u64)
                | ((base & 0xFF_FFFFu64) << 16u64) | ((base & 0xFF00_0000u64) << 32u64),
            high == base >> 32u64,
    ;
}

/// The task-state segment: the stacks the processor switches to on privilege changes and
/// interrupts.
#[derive(Clone, Copy)]
pub struct TaskStateSegment {
    pub reserved_1: u32,
    pub rsp0: u64,
    pub rsp1: u64,
    pub rsp2: u64,
    pub reserved_2: u64,
    pub ist: [u64; 7],
    pub reserved_3: u64,
    pub reserved_4: u16,
    pub iomap_base: u16,
}

impl TaskStateSegment {
    /// A segment with no stacks set and no I/O permission bitmap (its offset is the
    /// segment's size).
    pub fn new() -> (r: Self)
        ensures
            r.rsp0 == 0 && r.rsp1 == 0 && r.rsp2 == 0,
            r.reserved_1 == 0 && r.reserved_2 == 0 && r.reserved_3 == 0 && r.reserved_4 == 0,
            forall|i: int| 0 <= i < 7 ==> #[trigger] r.ist@[i] == 0,
            r.iomap_base == TSS_SIZE,
    {
        TaskStateSegment {
            reserved_1: 0,
            rsp0: 0,
            rsp1: 0,
            rsp2: 0,
            reserved_2: 0,
            ist: [0u64; 7],
            reserved_3: 0,
            reserved_4: 0,
            iomap_base: TSS_SIZE as u16,
        }
    }
}

} // verus!
