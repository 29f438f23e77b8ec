//! The interrupt descriptor table.

use vstd::prelude::*;
use crate::gdt::{kernel_code_selector, KERNEL_CODE};

verus! {

/// Gate options: present, interrupt gate.
pub const INTERRUPT_GATE: u16 = 0x8E00;

/// The frame the processor pushes when it delivers an exception.
#[derive(Debug, Clone, Copy)]
pub struct ExceptionStackFrame {
    pub instruction_pointer: u64,
    pub code_segment: u64,
    pub cpu_flags: u64,
    pub stack_pointer: u64,
    pub stack_segment: u64,
}

/// One gate of the table: the handler's address in three parts, the segment selector for
/// the handler, and its options.
#[derive(Clone, Copy)]
pub struct IdtEntry {
    pub pointer_low: u16,
    pub gdt_selector: u16,
    pub options: u16,
    pub pointer_middle: u16,
    pub pointer_high: u32,
    pub reserved: u32,
}

impl IdtEntry {
    /// Every field is zero: an absent interrupt descriptor.
    pub open spec fn is_empty_gate(&self) -> bool {
        &&& self.pointer_low == 0 && self.gdt_selector == 0 && self.options == 0
        &&& self.pointer_middle == 0 && self.pointer_high == 0 && self.reserved == 0
    }

    /// A gate that is not present.
    pub fn empty() -> (r: Self)
        ensures
            r.is_empty_gate(),
    {
        IdtEntry { pointer_low: 0, gdt_selector: 0, options: 0, pointer_middle: 0, pointer_high: 0, reserved: 0 }
    }

    /// Turns this entry into a present interrupt gate for `handler`, with the kernel's segment selector.
    pub fn set_handler(&mut self, handler: u64)
        ensures
            final(self).pointer_low == handler as u16,
            final(self).pointer_middle == (handler >> 16u64) as u16,
            final(self).pointer_high == (handler >> 32u64) as u32,
            final(self).gdt_selector == KERNEL_CODE * 8,
            final(self).options == INTERRUPT_GATE,
            final(self).reserved == old(self).reserved,
    {
        self.pointer_low = handler as u16;
        self.pointer_middle = (handler >> 16u64) as u16;
        self.pointer_high = (handler >> 32u64) as u32;
        self.gdt_selector = kernel_code_selector().0;
        self.options = INTERRUPT_GATE;
    }
}

/// Joining the three parts of a gate's address gives back the handler's address.
pub proof fn lemma_handler_address_round_trip(handler: u64)
    ensures
        (handler as u16) as u64 | (((handler >> 16u64) as u16) as u64) << 16u64
            | (((handler >> 32u64) as u32) as u64) << 32u64 == handler,
{
    assert((handler as u16) as u64 | (((handler >> 16u64) as u16) as u64) << 16u64
        | (((handler >> 32u64) as u32) as u64) << 32u64 == handler) by (bit_vector);
}

/// The table: 256 gates, one per vector.
pub struct InterruptDescriptorTable {
    pub entries: [IdtEntry; 256],
}

impl InterruptDescriptorTable {
    /// A table whose gates are all absent.
    pub fn new() -> (r: Self)
        ensures
            forall|i: int| 0 <= i < 256 ==> (#[trigger] r.entries@[i]).is_empty_gate(),
    {
        let e = IdtEntry::empty();
        InterruptDescriptorTable { entries: [e; 256] }
    }
}

} // verus!
