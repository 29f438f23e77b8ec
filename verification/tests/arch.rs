use vain::arch::{efer_with_syscalls, ioapic_id, ioapic_max_redirection, ioapic_redirection_high, ioapic_redirection_low, ioapic_redirection_register, join_msr, split_msr, syscall_result, STAR_VALUE};
use vain::gdt::{kernel_code_selector, kernel_data_selector, GlobalDescriptorTable, TaskStateSegment};
use vain::idt::{IdtEntry, InterruptDescriptorTable};
use vain::ipc_message::IpcMessage;

#[test]
fn tss_descriptor_encodes_base_and_limit() {
    let mut gdt = GlobalDescriptorTable::initial();
    gdt.set_tss(0xFFFF_8000_1234_5678);
    let low = gdt.entries[5];
    let high = gdt.entries[6];
    let base = ((low >> 16) & 0xFF_FFFF) | (((low >> 56) & 0xFF) << 24) | (high << 32);
    assert_eq!(base, 0xFFFF_8000_1234_5678);
    assert_eq!(low & 0xFFFF, 103);
    assert_eq!((low >> 40) & 0xF, 9);
    assert_eq!((low >> 47) & 1, 1);
    assert_eq!(gdt.entries[1], (1 << 43) | (1 << 44) | (1 << 47) | (1 << 53));
    assert_eq!(gdt.entries[3], (1 << 41) | (1 << 44) | (1 << 45) | (1 << 46) | (1 << 47));
}

#[test]
fn selectors_and_tss() {
    assert_eq!(kernel_code_selector().0, 0x08);
    assert_eq!(kernel_data_selector().0, 0x10);
    let tss = TaskStateSegment::new();
    assert_eq!(tss.iomap_base, 104);
    assert_eq!({ tss.rsp0 }, 0);
    assert_eq!(tss.reserved_1, 0);
    assert_eq!(tss.reserved_2, 0);
    assert_eq!(tss.reserved_3, 0);
    assert_eq!(tss.reserved_4, 0);
    assert_eq!(tss.ist, [0u64; 7]);
}

#[test]
fn idt_gate_splits_handler() {
    let mut e = IdtEntry::empty();
    e.set_handler(0xFFFF_8000_DEAD_BEEF);
    assert_eq!(e.pointer_low, 0xBEEF);
    assert_eq!(e.pointer_middle, 0xDEAD);
    assert_eq!(e.pointer_high, 0xFFFF_8000);
    assert_eq!(e.gdt_selector, 8);
    assert_eq!(e.options, 0x8E00);
    let t = InterruptDescriptorTable::new();
    assert!(t.entries.iter().all(|g| g.options == 0
        && g.pointer_low == 0
        && g.pointer_middle == 0
        && g.pointer_high == 0
        && g.gdt_selector == 0
        && g.reserved == 0));
}

#[test]
fn msr_values() {
    assert_eq!(split_msr(0x1122_3344_5566_7788), (0x5566_7788, 0x1122_3344));
    assert_eq!(join_msr(0x5566_7788, 0x1122_3344), 0x1122_3344_5566_7788);
    assert_eq!(STAR_VALUE, (0x10u64 << 48) | (0x08u64 << 32));
    assert_eq!(efer_with_syscalls(0xD00), 0xD01);
}

#[test]
fn syscall_results() {
    assert_eq!(syscall_result(1), 0);
    assert_eq!(syscall_result(2), !0);
}

#[test]
fn ioapic_values() {
    assert_eq!(ioapic_redirection_register(1), 0x12);
    assert_eq!(ioapic_redirection_low(33), 33);
    assert_eq!(ioapic_redirection_high(3), 3 << 24);
    assert_eq!(ioapic_id(0x0A00_0000), 0xA);
    assert_eq!(ioapic_max_redirection(0x0017_0011), 0x17);
}

#[test]
fn empty_message() {
    let m = IpcMessage::empty();
    assert_eq!(m.tag, 0);
    assert_eq!(m.caps, [0; 4]);
    assert_eq!(m.data, [0; 6]);
}
