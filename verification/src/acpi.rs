//! Reading the ACPI tables that locate the interrupt controllers: the RSDP, the root table
//! (RSDT or XSDT) and the MADT.

use vstd::prelude::*;
use crate::bytes::{le, read_u16, read_u32, read_u64};

verus! {

/// Size of the common header of every system description table.
pub const SDT_HEADER_SIZE: usize = 36;

/// Size of the MADT's fixed part: the common header, the local APIC address and flags.
pub const MADT_HEADER_SIZE: usize = 44;

/// Where the interrupt controllers are.
#[derive(Debug, Clone, Copy, PartialEq, Eq)]
pub struct AcpiInfo {
    pub lapic_base: u64,
    pub ioapic_base: Option<u64>,
}

/// What the RSDP says about the root table.
#[derive(Debug, Clone, Copy, PartialEq, Eq)]
pub struct RsdpInfo {
    pub revision: u8,
    pub rsdt_address: u32,
    /// The XSDT's address, present from revision 2 on.
    pub xsdt_address: Option<u64>,
}

/// An interrupt source override recorded in the MADT.
#[derive(Debug, Clone, Copy, PartialEq, Eq)]
pub struct InterruptOverride {
    pub bus: u8,
    pub source_irq: u8,
    pub global_system_interrupt: u32,
    pub flags: u16,
}

/// The RSDP stored in `s`.
pub open spec fn rsdp_spec(s: Seq<u8>) -> RsdpInfo {
    RsdpInfo {
        revision: s[15],
        rsdt_address: le(s, 16, 4) as u32,
        xsdt_address: if s[15] >= 2 { Some(le(s, 24, 8) as u64) } else { None },
    }
}

/// Reads the RSDP; the revision-2 part is read only when the revision announces it.
pub fn parse_rsdp(bytes: &[u8]) -> (r: RsdpInfo)
    requires
        bytes@.len() >= 20,
        bytes@[15] >= 2 ==> bytes@.len() >= 32,
    ensures
        r == rsdp_spec(bytes@),
{
    let revision = bytes[15];
    let rsdt_address = read_u32(bytes, 16);
    let xsdt_address = if revision >= 2 { Some(read_u64(bytes, 24)) } else { None };
    RsdpInfo { revision, rsdt_address, xsdt_address }
}

/// The physical address of the root table, and whether it is an XSDT (64-bit entries)
/// rather than an RSDT (32-bit entries).
pub fn root_table(info: &RsdpInfo) -> (r: (u64, bool))
    ensures
        r == (match info.xsdt_address {
            Some(x) => (x, true),
            None => (info.rsdt_address as u64, false),
        }),
{
    match info.xsdt_address {
        Some(x) => (x, true),
        None => (info.rsdt_address as u64, false),
    }
}

/// The length that a table's header declares.
pub fn table_length(header: &[u8]) -> (r: u32)
    requires
        header@.len() >= 8,
    ensures
        r == le(header@, 4, 4),
{
    read_u32(header, 4)
}

/// Whether the table header starts with the signature `APIC` of the MADT.
pub fn is_madt(header: &[u8]) -> (r: bool)
    requires
        header@.len() >= 4,
    ensures
        r == (header@[0] == 0x41u8 && header@[1] == 0x50u8 && header@[2] == 0x49u8
            && header@[3] == 0x43u8),
{
    header[0] == 0x41 && header[1] == 0x50 && header[2] == 0x49 && header[3] == 0x43
}

/// Number of entries of a root table whose declared length is `length`.
pub open spec fn entry_count(length: nat, is_xsdt: bool) -> nat {
    if is_xsdt {
        ((length - SDT_HEADER_SIZE) / 8) as nat
    } else {
        ((length - SDT_HEADER_SIZE) / 4) as nat
    }
}

/// The table addresses listed in a root table, in order.
pub fn sdt_entries(table: &[u8], is_xsdt: bool) -> (r: Vec<u64>)
    requires
        table@.len() >= SDT_HEADER_SIZE,
        le(table@, 4, 4) >= SDT_HEADER_SIZE,
        SDT_HEADER_SIZE + entry_count(le(table@, 4, 4), is_xsdt) * (if is_xsdt { 8int } else { 4int }) <= table@.len(),
    ensures
        r@.len() == entry_count(le(table@, 4, 4), is_xsdt),
        forall|i: int| 0 <= i < r@.len() ==> #[trigger] r@[i] == (if is_xsdt {
            le(table@, SDT_HEADER_SIZE + 8 * i, 8)
        } else {
            le(table@, SDT_HEADER_SIZE + 4 * i, 4)
        }),
{
    let tlen = table.len();
    let length = read_u32(table, 4) as usize;
    let entries_len = length - SDT_HEADER_SIZE;
    let width: usize = if is_xsdt { 8 } else { 4 };
    let count = entries_len / width;
    let mut out: Vec<u64> = Vec::new();
    let mut i: usize = 0;
    while i < count
        invariant
            count == entry_count(le(table@, 4, 4), is_xsdt),
            width == (if is_xsdt { 8int } else { 4int }),
            SDT_HEADER_SIZE + count * width <= table@.len(),
            tlen == table@.len(),
            i <= count,
            out@.len() == i,
            forall|j: int| 0 <= j < i ==> #[trigger] out@[j] == (if is_xsdt {
                le(table@, SDT_HEADER_SIZE + 8 * j, 8)
            } else {
                le(table@, SDT_HEADER_SIZE + 4 * j, 4)
            }),
        decreases count - i,
    {
        proof {
            assert(i * width + width <= count * width) by (nonlinear_arith)
                requires i < count, width >= 0;
        }
        let off = SDT_HEADER_SIZE + i * width;
        if is_xsdt {
            out.push(read_u64(table, off));
        } else {
            out.push(read_u32(table, off) as u64);
        }
        i = i + 1;
    }
    out
}

/// Bytes that the MADT entry at `off` must hold for its type to be read.
pub open spec fn madt_entry_size(t: u8) -> int {
    if t == 1 { 8 } else if t == 2 { 10 } else if t == 5 { 12 } else { 2 }
}

/// Every MADT entry from `off` up to `end` lies in `s` and has a non-zero length, so the
/// walk over the entries reaches `end`.
pub open spec fn madt_walk_ok(s: Seq<u8>, off: int, end: int) -> bool
    decreases (if off < end { end - off } else { 0 }),
{
    if off >= end {
        true
    } else if off < 0 || off + 2 > s.len() || s[off + 1] == 0 {
        false
    } else {
        off + madt_entry_size(s[off]) <= s.len() && madt_walk_ok(s, off + s[off + 1], end)
    }
}

/// The controller addresses found by walking the MADT entries from `off` to `end`, starting
/// from `lapic` and `ioapic`: a local-APIC override (type 5) replaces the local APIC address,
/// and the first I/O APIC entry (type 1) gives the I/O APIC address.
pub open spec fn madt_walk(s: Seq<u8>, off: int, end: int, lapic: u64, ioapic: Option<u64>) -> (u64, Option<u64>)
    decreases (if off < end { end - off } else { 0 }),
{
    if off >= end || off < 0 || off + 2 > s.len() || s[off + 1] == 0 {
        (lapic, ioapic)
    } else {
        let t = s[off];
        let lapic2 = if t == 5 { le(s, off + 4, 8) as u64 } else { lapic };
        let ioapic2 = if t == 1 && ioapic is None { Some(le(s, off + 4, 4) as u64) } else { ioapic };
        madt_walk(s, off + s[off + 1], end, lapic2, ioapic2)
    }
}

/// The interrupt source override stored at `off`.
pub open spec fn override_at(s: Seq<u8>, off: int) -> InterruptOverride {
    InterruptOverride {
        bus: s[off + 2],
        source_irq: s[off + 3],
        global_system_interrupt: le(s, off + 4, 4) as u32,
        flags: le(s, off + 8, 2) as u16,
    }
}

/// The interrupt source overrides (type 2) met walking the MADT entries from `off` to `end`.
pub open spec fn madt_overrides(s: Seq<u8>, off: int, end: int) -> Seq<InterruptOverride>
    decreases (if off < end { end - off } else { 0 }),
{
    if off >= end || off < 0 || off + 2 > s.len() || s[off + 1] == 0 {
        Seq::empty()
    } else {
        let here = if s[off] == 2 { seq![override_at(s, off)] } else { Seq::empty() };
        here + madt_overrides(s, off + s[off + 1], end)
    }
}

/// What the MADT in `s` says: the controllers' addresses and the interrupt overrides.
pub open spec fn madt_spec(s: Seq<u8>) -> (AcpiInfo, Seq<InterruptOverride>) {
    let end = le(s, 4, 4) as int;
    let (lapic, ioapic) = madt_walk(s, MADT_HEADER_SIZE as int, end, le(s, 36, 4) as u64, None);
    (AcpiInfo { lapic_base: lapic, ioapic_base: ioapic }, madt_overrides(s, MADT_HEADER_SIZE as int, end))
}

/// Each of `ov` was read from an Interrupt Source Override structure inside the MADT `s`,
/// the `k`-th from the `k`-th such structure met walking the entries.
pub open spec fn overrides_from_entries(s: Seq<u8>, ov: Seq<InterruptOverride>) -> bool {
    forall|k: int| 0 <= k < ov.len() ==> #[trigger] kth_override_read(s, k, ov[k])
}

/// `o` was read from the `k`-th Interrupt Source Override structure met walking the MADT `s`.
pub open spec fn kth_override_read(s: Seq<u8>, k: int, o: InterruptOverride) -> bool {
    let p = override_offset(s, MADT_HEADER_SIZE as int, le(s, 4, 4) as int, k);
    &&& MADT_HEADER_SIZE <= p < le(s, 4, 4)
    &&& override_entry_holds(s, p, o)
}

/// Whether the MADT's entries can be walked: each lies inside `madt`, has a non-zero length,
/// and the walk reaches the declared end of the table.
pub fn madt_entries_valid(madt: &[u8]) -> (r: bool)
    ensures
        r == (madt@.len() >= MADT_HEADER_SIZE && madt_walk_ok(madt@, MADT_HEADER_SIZE as int, le(madt@, 4, 4) as int)),
{
    let len = madt.len();
    if len < MADT_HEADER_SIZE {
        return false;
    }
    let end = read_u32(madt, 4) as u64;
    let mut off: u64 = MADT_HEADER_SIZE as u64;
    while off < end
        invariant
            len == madt@.len(),
            len >= MADT_HEADER_SIZE,
            end == le(madt@, 4, 4),
            end <= u32::MAX,
            madt_walk_ok(madt@, MADT_HEADER_SIZE as int, end as int) == madt_walk_ok(madt@, off as int, end as int),
        decreases (if off < end { end - off } else { 0 }),
    {
        if off + 2 > len as u64 {
            return false;
        }
        let i = off as usize;
        let entry_type = madt[i];
        let entry_length = madt[i + 1];
        if entry_length == 0 {
            return false;
        }
        let need: u64 = if entry_type == 1 { 8 } else if entry_type == 2 { 10 } else if entry_type == 5 { 12 } else { 2 };
        if off + need > len as u64 {
            return false;
        }
        off = off + entry_length as u64;
    }
    true
}

/// Walks the MADT's entries.
pub fn parse_madt(madt: &[u8]) -> (r: (AcpiInfo, Vec<InterruptOverride>))
    requires
        madt@.len() >= MADT_HEADER_SIZE,
        madt_walk_ok(madt@, MADT_HEADER_SIZE as int, le(madt@, 4, 4) as int),
    ensures
        (r.0, r.1@) == madt_spec(madt@),
        overrides_from_entries(madt@, r.1@),
{
    let s = Ghost(madt@);
    let len = madt.len();
    let end = read_u32(madt, 4) as u64;
    let mut lapic_base: u64 = read_u32(madt, 36) as u64;
    let mut ioapic_base: Option<u64> = None;
    let mut overrides: Vec<InterruptOverride> = Vec::new();
    let mut off: u64 = MADT_HEADER_SIZE as u64;
    while off < end
        invariant
            s@ == madt@,
            len == madt@.len(),
            end == le(madt@, 4, 4),
            end <= u32::MAX,
            madt_walk_ok(madt@, off as int, end as int),
            madt_walk(madt@, MADT_HEADER_SIZE as int, end as int, le(madt@, 36, 4) as u64, None)
                == madt_walk(madt@, off as int, end as int, lapic_base, ioapic_base),
            madt_overrides(madt@, MADT_HEADER_SIZE as int, end as int)
                == overrides@ + madt_overrides(madt@, off as int, end as int),
        decreases (if off < end { end - off } else { 0 }),
    {
        let i = off as usize;
        let entry_type = madt[i];
        let entry_length = madt[i + 1];
        let ghost old_ov = overrides@;
        if entry_type == 1 {
            let addr = read_u32(madt, i + 4);
            if ioapic_base.is_none() {
                ioapic_base = Some(addr as u64);
            }
        } else if entry_type == 2 {
            let ov = InterruptOverride {
                bus: madt[i + 2],
                source_irq: madt[i + 3],
                global_system_interrupt: read_u32(madt, i + 4),
                flags: read_u16(madt, i + 8),
            };
            overrides.push(ov);
        } else if entry_type == 5 {
            lapic_base = read_u64(madt, i + 4);
        }
        proof {
            let here = if entry_type == 2 { seq![override_at(madt@, off as int)] } else { Seq::empty() };
            assert(overrides@ =~= old_ov + here);
            assert(madt_overrides(madt@, off as int, end as int)
                == here + madt_overrides(madt@, off + entry_length, end as int));
            assert(old_ov + (here + madt_overrides(madt@, off + entry_length, end as int))
                =~= (old_ov + here) + madt_overrides(madt@, off + entry_length, end as int));
        }
        off = off + entry_length as u64;
    }
    proof {
        assert(madt_overrides(madt@, off as int, end as int).len() == 0);
        assert(overrides@ =~= madt_overrides(madt@, MADT_HEADER_SIZE as int, end as int));
        assert forall|k: int| 0 <= k < overrides@.len() implies #[trigger] kth_override_read(madt@, k, overrides@[k]) by {
            lemma_overrides_read_from_entries(madt@, MADT_HEADER_SIZE as int, le(madt@, 4, 4) as int, k);
        }
        assert(overrides_from_entries(madt@, overrides@));
    }
    (AcpiInfo { lapic_base, ioapic_base }, overrides)
}


/// Once an I/O APIC has been found, later entries do not replace it: the first one listed wins.
pub proof fn lemma_first_ioapic_kept(s: Seq<u8>, off: int, end: int, lapic: u64, ioapic: u64)
    ensures
        madt_walk(s, off, end, lapic, Some(ioapic)).1 == Some(ioapic),
    decreases (if off < end { end - off } else { 0 }),
{
    if off >= end || off < 0 || off + 2 > s.len() || s[off + 1] == 0 {
    } else {
        let t = s[off];
        let lapic2 = if t == 5 { le(s, off + 4, 8) as u64 } else { lapic };
        lemma_first_ioapic_kept(s, off + s[off + 1], end, lapic2, ioapic);
    }
}

/// `o` is what ACPI's Interrupt Source Override structure (entry type 2) at offset `p` of `s`
/// holds: the bus at byte 2, the source IRQ at byte 3, the global system interrupt in bytes
/// 4..8 and the flags in bytes 8..10, little-endian.
pub open spec fn override_entry_holds(s: Seq<u8>, p: int, o: InterruptOverride) -> bool {
    &&& s[p] == 2
    &&& o.bus == s[p + 2]
    &&& o.source_irq == s[p + 3]
    &&& o.global_system_interrupt == le(s, p + 4, 4) as u32
    &&& o.flags == le(s, p + 8, 2) as u16
}

/// The offset of the MADT entry that the `k`-th override met walking from `off` to `end` was
/// read from.
pub open spec fn override_offset(s: Seq<u8>, off: int, end: int, k: int) -> int
    decreases (if off < end { end - off } else { 0 }),
{
    if off >= end || off < 0 || off + 2 > s.len() || s[off + 1] == 0 {
        off
    } else if s[off] == 2 && k == 0 {
        off
    } else {
        override_offset(s, off + s[off + 1], end, if s[off] == 2 { k - 1 } else { k })
    }
}

/// Every interrupt source override that the MADT walk collects was read from an Interrupt
/// Source Override structure at an offset of the walked range, by ACPI's field layout.
pub proof fn lemma_overrides_read_from_entries(s: Seq<u8>, off: int, end: int, k: int)
    requires
        0 <= k < madt_overrides(s, off, end).len(),
    ensures
        off <= override_offset(s, off, end, k) < end,
        override_entry_holds(s, override_offset(s, off, end, k), madt_overrides(s, off, end)[k]),
    decreases (if off < end { end - off } else { 0 }),
{
    let next = off + s[off + 1];
    let here = if s[off] == 2 { seq![override_at(s, off)] } else { Seq::<InterruptOverride>::empty() };
    let rest = madt_overrides(s, next, end);
    assert(madt_overrides(s, off, end) == here + rest);
    if k >= here.len() {
        lemma_overrides_read_from_entries(s, next, end, k - here.len());
    }
}

/// The controller addresses that the MADT walk reports come from the entries of the walked
/// range, by ACPI's layout: the local APIC address is the starting one unless a Local APIC
/// Address Override (type 5) supplies the 8 bytes at its offset 4, and a newly found I/O APIC
/// address is the 4 bytes at offset 4 of an I/O APIC structure (type 1).
pub proof fn lemma_controllers_read_from_entries(s: Seq<u8>, off: int, end: int, lapic: u64, ioapic: Option<u64>)
    ensures
        ({
            let (l, io) = madt_walk(s, off, end, lapic, ioapic);
            &&& l == lapic || exists|p: int| off <= p < end && #[trigger] s[p] == 5 && l == le(s, p + 4, 8) as u64
            &&& io == ioapic || (ioapic is None && exists|p: int|
                off <= p < end && #[trigger] s[p] == 1 && io == Some(le(s, p + 4, 4) as u64))
        }),
    decreases (if off < end { end - off } else { 0 }),
{
    if off >= end || off < 0 || off + 2 > s.len() || s[off + 1] == 0 {
    } else {
        let t = s[off];
        let lapic2 = if t == 5 { le(s, off + 4, 8) as u64 } else { lapic };
        let ioapic2 = if t == 1 && ioapic is None { Some(le(s, off + 4, 4) as u64) } else { ioapic };
        let next = off + s[off + 1];
        lemma_controllers_read_from_entries(s, next, end, lapic2, ioapic2);
        let (l, io) = madt_walk(s, off, end, lapic, ioapic);
        assert((l, io) == madt_walk(s, next, end, lapic2, ioapic2));
        if l != lapic2 {
            let p = choose|p: int| next <= p < end && #[trigger] s[p] == 5 && l == le(s, p + 4, 8) as u64;
            assert(s[p] == 5);
        } else if t == 5 {
            assert(s[off] == 5);
        }
        if io != ioapic2 {
            let p = choose|p: int| next <= p < end && #[trigger] s[p] == 1 && io == Some(le(s, p + 4, 4) as u64);
            assert(s[p] == 1);
        } else if t == 1 && ioapic is None {
            assert(s[off] == 1);
        }
    }
}

} // verus!
