use vain::paging::{link_table, map_leaf, page_base, table_indices, MapError, PageTable, PageTableEntry};

#[test]
fn set_address_reads_back_address_and_flags() {
    let mut e = PageTableEntry::new();
    assert!(!e.is_present());
    e.set_address(0x1234_5678_9ABC, PageTableEntry::PRESENT | PageTableEntry::WRITABLE);
    assert_eq!(e.address(), 0x1234_5678_9000);
    assert_eq!(e.flags(), 3);
    assert!(e.is_present());
}

#[test]
fn address_field_drops_bits_outside_it() {
    let mut e = PageTableEntry::new();
    e.set_address(0xFFF0_0000_0000_1FFF, PageTableEntry::NO_EXECUTE);
    assert_eq!(e.address(), 0x0000_0000_0000_1000);
    assert_eq!(e.flags(), PageTableEntry::NO_EXECUTE);
    assert!(!e.is_present());
}

#[test]
fn set_unused_clears_entry() {
    let mut e = PageTableEntry::new();
    e.set_address(0x5000, PageTableEntry::PRESENT);
    e.set_unused();
    assert!(!e.is_present());
    assert_eq!(e.address(), 0);
    assert_eq!(e.flags(), 0);
}

#[test]
fn page_table_new_and_clear() {
    let mut t = PageTable::new();
    assert!(t.entries.iter().all(|e| !e.is_present()));
    t.entries[7].set_address(0x8000, PageTableEntry::PRESENT);
    t.entries[511].set_address(0x9000, PageTableEntry::PRESENT);
    t.clear();
    assert!(t.entries.iter().all(|e| e.address() == 0 && e.flags() == 0));
}

#[test]
fn map_leaf_refuses_mapped_entry() {
    let mut e = PageTableEntry::new();
    assert_eq!(map_leaf(&mut e, 0x7000, PageTableEntry::WRITABLE), Ok(()));
    assert_eq!(e.address(), 0x7000);
    assert_eq!(e.flags(), 3);
    assert_eq!(map_leaf(&mut e, 0x9000, 0), Err(MapError::AlreadyMapped));
    assert_eq!(e.address(), 0x7000);
}

#[test]
fn link_table_sets_table_flags() {
    let mut e = PageTableEntry::new();
    link_table(&mut e, 0x0042_1000);
    assert_eq!(e.address(), 0x0042_1000);
    assert_eq!(e.flags(), 7);
}

#[test]
fn table_indices_split_address() {
    let va: u64 = (3 << 39) | (5 << 30) | (7 << 21) | (9 << 12) | 0x123;
    assert_eq!(table_indices(va), [3, 5, 7, 9]);
    assert_eq!(table_indices(0xFFFF_9000_0000_0000), [288, 0, 0, 0]);
}

#[test]
fn page_base_rounds_down() {
    assert_eq!(page_base(0x1FFF), 0x1000);
    assert_eq!(page_base(0x2000), 0x2000);
}
