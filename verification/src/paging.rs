//! x86-64 page-table entries and 512-entry page tables.

use vstd::prelude::*;

verus! {

/// Bits 12..=51 of an entry: the physical frame address.
pub const ADDRESS_MASK: u64 = 0x000F_FFFF_FFFF_F000;

/// One 64-bit page-table entry: a physical frame address together with flag bits.
#[derive(Clone, Copy)]
pub struct PageTableEntry(u64);

impl View for PageTableEntry {
    type V = u64;

    closed spec fn view(&self) -> u64 {
        self.0
    }
}

impl PageTableEntry {
    pub const PRESENT: u64 = 1;
    pub const WRITABLE: u64 = 2;
    pub const USER_ACCESSIBLE: u64 = 4;
    pub const WRITE_THROUGH: u64 = 8;
    pub const NO_CACHE: u64 = 16;
    pub const ACCESSED: u64 = 32;
    pub const DIRTY: u64 = 64;
    pub const HUGE_PAGE: u64 = 128;
    pub const GLOBAL: u64 = 256;
    pub const NO_EXECUTE: u64 = 0x8000_0000_0000_0000;

    /// An empty (not present) entry.
    pub fn new() -> (r: Self)
        ensures
            r@ == 0,
    {
        PageTableEntry(0)
    }

    /// Points the entry at `physical_address` (its frame bits) with the given flag bits.
    pub fn set_address(&mut self, physical_address: u64, flags: u64)
        ensures
            final(self)@ == (physical_address & ADDRESS_MASK) | flags,
    {
        self.0 = (physical_address & ADDRESS_MASK) | flags;
    }

    /// The physical frame address that the entry holds.
    pub fn address(&self) -> (r: u64)
        ensures
            r == self@ & ADDRESS_MASK,
    {
        self.0 & ADDRESS_MASK
    }

    /// The bits of the entry outside the address field.
    pub fn flags(&self) -> (r: u64)
        ensures
            r == self@ & !ADDRESS_MASK,
    {
        self.0 & !ADDRESS_MASK
    }

    /// Whether the present bit is set.
    pub fn is_present(&self) -> (r: bool)
        ensures
            r == (self@ & 1u64 != 0),
    {
        (self.0 & Self::PRESENT) != 0
    }

    /// Clears the entry.
    pub fn set_unused(&mut self)
        ensures
            final(self)@ == 0,
    {
        self.0 = 0;
    }
}

/// Writing an address and flags that stay out of the address field, and reading
/// them back, gives the address's frame bits and exactly those flags; the entry is
/// present exactly when the flags hold the present bit.
pub proof fn lemma_set_address_read_back(physical_address: u64, flags: u64)
    requires
        flags & ADDRESS_MASK == 0,
    ensures
        ((physical_address & ADDRESS_MASK) | flags) & ADDRESS_MASK == physical_address
            & ADDRESS_MASK,
        ((physical_address & ADDRESS_MASK) | flags) & !ADDRESS_MASK == flags,
        ((((physical_address & ADDRESS_MASK) | flags) & 1u64) != 0) == ((flags & 1u64) != 0),
{
    assert(((physical_address & 0x000F_FFFF_FFFF_F000u64) | flags) & 0x000F_FFFF_FFFF_F000u64
        == physical_address & 0x000F_FFFF_FFFF_F000u64) by (bit_vector)
        requires
            flags & 0x000F_FFFF_FFFF_F000u64 == 0,
    ;
    assert(((physical_address & 0x000F_FFFF_FFFF_F000u64) | flags) & !0x000F_FFFF_FFFF_F000u64
        == flags) by (bit_vector)
        requires
            flags & 0x000F_FFFF_FFFF_F000u64 == 0,
    ;
    assert(((((physical_address & 0x000F_FFFF_FFFF_F000u64) | flags) & 1u64) != 0) == ((flags
        & 1u64) != 0)) by (bit_vector);
}

/// Every entry is exactly its address field joined with its flag bits, and the two never overlap.
pub proof fn lemma_entry_splits(raw: u64)
    ensures
        (raw & ADDRESS_MASK) | (raw & !ADDRESS_MASK) == raw,
        (raw & ADDRESS_MASK) & (raw & !ADDRESS_MASK) == 0,
{
    assert((raw & 0x000F_FFFF_FFFF_F000u64) | (raw & !0x000F_FFFF_FFFF_F000u64) == raw)
        by (bit_vector);
    assert((raw & 0x000F_FFFF_FFFF_F000u64) & (raw & !0x000F_FFFF_FFFF_F000u64) == 0)
        by (bit_vector);
}

/// A cleared entry is not present and holds neither address nor flags.
pub proof fn lemma_unused_entry(raw: u64)
    requires
        raw == 0,
    ensures
        raw & ADDRESS_MASK == 0,
        raw & !ADDRESS_MASK == 0,
        raw & 1u64 == 0,
{
    assert(0u64 & 0x000F_FFFF_FFFF_F000u64 == 0) by (bit_vector);
    assert(0u64 & !0x000F_FFFF_FFFF_F000u64 == 0) by (bit_vector);
    assert(0u64 & 1u64 == 0) by (bit_vector);
}

/// Why a page could not be mapped.
#[derive(Debug, Clone, Copy, PartialEq, Eq)]
pub enum MapError {
    /// The leaf entry already maps a frame.
    AlreadyMapped,
    /// No frame was free for an intermediate table.
    OutOfMemory,
}

/// Flags of an intermediate entry that links a lower-level table: present, writable, user.
pub const TABLE_LINK_FLAGS: u64 = 7;

/// Fills the leaf entry for a page: refuses when it already maps a frame, otherwise maps
/// `physical_address` with `flags` and the present bit.
pub fn map_leaf(entry: &mut PageTableEntry, physical_address: u64, flags: u64) -> (r: Result<(), MapError>)
    ensures
        old(entry)@ & 1u64 != 0 ==> r == Err::<(), MapError>(MapError::AlreadyMapped) && final(entry)@ == old(entry)@,
        old(entry)@ & 1u64 == 0 ==> r is Ok && final(entry)@ == (physical_address & ADDRESS_MASK) | (flags | 1u64),
{
    if entry.is_present() {
        return Err(MapError::AlreadyMapped);
    }
    entry.set_address(physical_address, flags | PageTableEntry::PRESENT);
    Ok(())
}

/// Points an intermediate entry at the lower-level table stored in frame `frame`.
pub fn link_table(entry: &mut PageTableEntry, frame: u64)
    ensures
        final(entry)@ == (frame & ADDRESS_MASK) | TABLE_LINK_FLAGS,
{
    assert(1u64 | 2u64 | 4u64 == 7u64) by (bit_vector);
    entry.set_address(frame, PageTableEntry::PRESENT | PageTableEntry::WRITABLE | PageTableEntry::USER_ACCESSIBLE);
}

/// The indices into the level-4, level-3, level-2 and level-1 tables for `virtual_address`.
pub open spec fn table_indices_spec(virtual_address: u64) -> [usize; 4] {
    [
        ((virtual_address >> 39u64) & 0x1FFu64) as usize,
        ((virtual_address >> 30u64) & 0x1FFu64) as usize,
        ((virtual_address >> 21u64) & 0x1FFu64) as usize,
        ((virtual_address >> 12u64) & 0x1FFu64) as usize,
    ]
}

/// The four table indices of `virtual_address`, top level first.
pub fn table_indices(virtual_address: u64) -> (r: [usize; 4])
    ensures
        r@ == table_indices_spec(virtual_address)@,
        forall|i: int| 0 <= i < 4 ==> #[trigger] r@[i] < 512,
        (r@[0] as int) * 0x80_0000_0000 + (r@[1] as int) * 0x4000_0000 + (r@[2] as int) * 0x20_0000
            + (r@[3] as int) * 0x1000 + (virtual_address as int) % 0x1000
            == (virtual_address as int) % 0x1_0000_0000_0000,
{
    let va = virtual_address;
    proof {
        lemma_table_indices_cover(va);
    }
    proof {
        assert((va >> 39u64) & 0x1FFu64 < 512 && (va >> 30u64) & 0x1FFu64 < 512
            && (va >> 21u64) & 0x1FFu64 < 512 && (va >> 12u64) & 0x1FFu64 < 512) by (bit_vector);
    }
    let r = [
        ((va >> 39u64) & 0x1FF) as usize,
        ((va >> 30u64) & 0x1FF) as usize,
        ((va >> 21u64) & 0x1FF) as usize,
        ((va >> 12u64) & 0x1FF) as usize,
    ];
    assert(r@ =~= table_indices_spec(virtual_address)@);
    r
}

/// The four table indices and the offset within the page together give back the low 48
/// bits of the virtual address: each index that `table_indices` gives is below 512, and
/// index 0 counts units of 2^39 bytes, index 1 of 2^30, index 2 of 2^21 and index 3 of 2^12.
/// So distinct pages get distinct index tuples.
pub proof fn lemma_table_indices_cover(va: u64)
    ensures
        (((va >> 39u64) & 0x1FFu64) << 39u64) | (((va >> 30u64) & 0x1FFu64) << 30u64)
            | (((va >> 21u64) & 0x1FFu64) << 21u64) | (((va >> 12u64) & 0x1FFu64) << 12u64)
            | (va & 0xFFFu64) == va & 0xFFFF_FFFF_FFFFu64,
        ({
            let idx = table_indices_spec(va)@;
            &&& forall|k: int| 0 <= k < 4 ==> #[trigger] idx[k] < 512
            &&& (idx[0] as int) * 0x80_0000_0000 + (idx[1] as int) * 0x4000_0000
                + (idx[2] as int) * 0x20_0000 + (idx[3] as int) * 0x1000 + (va as int) % 0x1000
                == (va as int) % 0x1_0000_0000_0000
        }),
{
    assert((((va >> 39u64) & 0x1FFu64) << 39u64) | (((va >> 30u64) & 0x1FFu64) << 30u64)
        | (((va >> 21u64) & 0x1FFu64) << 21u64) | (((va >> 12u64) & 0x1FFu64) << 12u64)
        | (va & 0xFFFu64) == va & 0xFFFF_FFFF_FFFFu64) by (bit_vector);
    let a: u64 = (va >> 39u64) & 0x1FFu64;
    let b: u64 = (va >> 30u64) & 0x1FFu64;
    let c: u64 = (va >> 21u64) & 0x1FFu64;
    let d: u64 = (va >> 12u64) & 0x1FFu64;
    assert(a < 512 && b < 512 && c < 512 && d < 512
        && a * 0x80_0000_0000u64 + b * 0x4000_0000u64 + c * 0x20_0000u64 + d * 0x1000u64 + va % 0x1000u64
            == va % 0x1_0000_0000_0000u64) by (bit_vector)
        requires
            a == (va >> 39u64) & 0x1FFu64,
            b == (va >> 30u64) & 0x1FFu64,
            c == (va >> 21u64) & 0x1FFu64,
            d == (va >> 12u64) & 0x1FFu64,
    ;
    let idx = table_indices_spec(va)@;
    assert(idx[0] as int == a as int && idx[1] as int == b as int && idx[2] as int == c as int && idx[3] as int == d as int);
}

/// The start of the 4 KiB page that holds `address`.
pub fn page_base(address: u64) -> (r: u64)
    ensures
        r == address & !0xFFFu64,
        r <= address,
        address - r < 4096,
{
    proof {
        assert((address & !0xFFFu64) <= address && address - (address & !0xFFFu64) < 4096) by (bit_vector);
    }
    address & !0xFFFu64
}

/// A page table: 512 entries.
pub struct PageTable {
    pub entries: [PageTableEntry; 512],
}

impl PageTable {
    /// A table whose entries are all empty.
    pub fn new() -> (r: Self)
        ensures
            forall|i: int| 0 <= i < 512 ==> (#[trigger] r.entries@[i])@ == 0,
    {
        let e = PageTableEntry::new();
        PageTable { entries: [e; 512] }
    }

    /// Clears every entry of the table.
    pub fn clear(&mut self)
        ensures
            forall|i: int| 0 <= i < 512 ==> (#[trigger] final(self).entries@[i])@ == 0,
    {
        let mut i: usize = 0;
        while i < 512
            invariant
                i <= 512,
                forall|j: int| 0 <= j < i ==> (#[trigger] self.entries@[j])@ == 0,
            decreases 512 - i,
        {
            self.entries[i].set_unused();
            i = i + 1;
        }
    }
}

} // verus!
