use vain::acpi::{is_madt, parse_madt, parse_rsdp, root_table, sdt_entries, table_length, AcpiInfo, InterruptOverride};

#[test]
fn rsdp_revision_0_uses_rsdt() {
    let mut r = vec![0u8; 20];
    r[0..8].copy_from_slice(b"RSD PTR ");
    r[15] = 0;
    r[16..20].copy_from_slice(&0x000E_1234u32.to_le_bytes());
    let info = parse_rsdp(&r);
    assert_eq!(info.revision, 0);
    assert_eq!(info.xsdt_address, None);
    assert_eq!(root_table(&info), (0x000E_1234, false));
}

#[test]
fn rsdp_revision_2_uses_xsdt() {
    let mut r = vec![0u8; 36];
    r[15] = 2;
    r[16..20].copy_from_slice(&0x1000u32.to_le_bytes());
    r[24..32].copy_from_slice(&0x1_2345_6000u64.to_le_bytes());
    let info = parse_rsdp(&r);
    assert_eq!(info.xsdt_address, Some(0x1_2345_6000));
    assert_eq!(root_table(&info), (0x1_2345_6000, true));
}

#[test]
fn root_table_entries() {
    let mut x = vec![0u8; 36 + 16];
    x[0..4].copy_from_slice(b"XSDT");
    x[4..8].copy_from_slice(&52u32.to_le_bytes());
    x[36..44].copy_from_slice(&0xAAAA_0000u64.to_le_bytes());
    x[44..52].copy_from_slice(&0xBBBB_0000u64.to_le_bytes());
    assert_eq!(table_length(&x), 52);
    assert_eq!(sdt_entries(&x, true), vec![0xAAAA_0000, 0xBBBB_0000]);
    let mut r = vec![0u8; 36 + 12];
    r[4..8].copy_from_slice(&48u32.to_le_bytes());
    r[36..40].copy_from_slice(&0x10u32.to_le_bytes());
    r[40..44].copy_from_slice(&0x20u32.to_le_bytes());
    r[44..48].copy_from_slice(&0x30u32.to_le_bytes());
    assert_eq!(sdt_entries(&r, false), vec![0x10, 0x20, 0x30]);
    assert!(is_madt(b"APIC...."));
    assert!(!is_madt(b"FACP...."));
}

#[test]
fn madt_entries_give_controllers_and_overrides() {
    let mut m = vec![0u8; 44];
    m[0..4].copy_from_slice(b"APIC");
    m[36..40].copy_from_slice(&0xFEE0_0000u32.to_le_bytes());
    // Local APIC entry (type 0).
    m.extend_from_slice(&[0, 8, 0, 0, 1, 0, 0, 0]);
    // First I/O APIC (type 1).
    m.extend_from_slice(&[1, 12, 0, 0]);
    m.extend_from_slice(&0xFEC0_0000u32.to_le_bytes());
    m.extend_from_slice(&[0, 0, 0, 0]);
    // Interrupt source override (type 2): bus 0, IRQ 0 -> GSI 2, flags 0.
    m.extend_from_slice(&[2, 10, 0, 0]);
    m.extend_from_slice(&2u32.to_le_bytes());
    m.extend_from_slice(&0u16.to_le_bytes());
    // Second I/O APIC, ignored.
    m.extend_from_slice(&[1, 12, 1, 0]);
    m.extend_from_slice(&0xFEC1_0000u32.to_le_bytes());
    m.extend_from_slice(&[0, 0, 0, 0]);
    // 64-bit local APIC address override (type 5).
    m.extend_from_slice(&[5, 12, 0, 0]);
    m.extend_from_slice(&0x1_FEE0_0000u64.to_le_bytes());
    let len = m.len() as u32;
    m[4..8].copy_from_slice(&len.to_le_bytes());
    let (info, overrides) = parse_madt(&m);
    assert_eq!(info, AcpiInfo { lapic_base: 0x1_FEE0_0000, ioapic_base: Some(0xFEC0_0000) });
    assert_eq!(
        overrides,
        vec![InterruptOverride { bus: 0, source_irq: 0, global_system_interrupt: 2, flags: 0 }]
    );
}

#[test]
fn madt_without_entries() {
    let mut m = vec![0u8; 44];
    m[4..8].copy_from_slice(&44u32.to_le_bytes());
    m[36..40].copy_from_slice(&0xFEE0_0000u32.to_le_bytes());
    let (info, overrides) = parse_madt(&m);
    assert_eq!(info, AcpiInfo { lapic_base: 0xFEE0_0000, ioapic_base: None });
    assert!(overrides.is_empty());
}
