//! Register encodings used when the kernel programs the processor and the interrupt
//! controllers.

use vstd::prelude::*;

verus! {

/// Value of the STAR MSR: kernel code selector 0x08 in bits 32..48, user selector base 0x10
/// in bits 48..64.
pub const STAR_VALUE: u64 = 0x0010_0008_0000_0000;

/// RFLAGS bits cleared on system-call entry: TF, IF and DF.
pub const SYSCALL_FLAG_MASK: u64 = 0x700;

/// Number of the logging system call.
pub const SYS_LOG: u64 = 1;

/// The two halves (low, high) that a 64-bit MSR value is written as.
pub fn split_msr(value: u64) -> (r: (u32, u32))
    ensures
        r.0 == value as u32,
        r.1 == (value >> 32u64) as u32,
{
    (value as u32, (value >> 32u64) as u32)
}

/// The 64-bit MSR value read back as two halves.
pub fn join_msr(low: u32, high: u32) -> (r: u64)
    ensures
        r == ((high as u64) << 32u64) | (low as u64),
{
    ((high as u64) << 32u64) | (low as u64)
}

/// Splitting an MSR value and joining the halves gives the value back.
pub proof fn lemma_msr_round_trip(value: u64)
    ensures
        (((value >> 32u64) as u32 as u64) << 32u64) | (value as u32 as u64) == value,
{
    assert((((value >> 32u64) as u32 as u64) << 32u64) | (value as u32 as u64) == value) by (bit_vector);
}

/// The EFER value with system calls enabled (bit 0 set).
pub fn efer_with_syscalls(efer: u64) -> (r: u64)
    ensures
        r == efer | 1u64,
{
    efer | 1
}

/// What the low-level system-call handler returns for `sys_num`: 0 for the logging call,
/// all ones for any other number.
pub fn syscall_result(sys_num: u64) -> (r: u64)
    ensures
        r == (if sys_num == SYS_LOG { 0u64 } else { u64::MAX }),
{
    assert(!0u64 == 0xFFFF_FFFF_FFFF_FFFFu64) by (bit_vector);
    if sys_num == SYS_LOG { 0 } else { !0u64 }
}

/// I/O APIC register holding the low word of the redirection entry of `irq`.
pub fn ioapic_redirection_register(irq: u32) -> (r: u32)
    requires
        irq < 120,
    ensures
        r == 0x10 + 2 * irq,
{
    0x10 + 2 * irq
}

/// Low word of a redirection entry delivering to `vector`: fixed delivery, physical
/// destination, active high, edge triggered, not masked.
pub fn ioapic_redirection_low(vector: u32) -> (r: u32)
    requires
        vector < 256,
    ensures
        r == vector,
{
    vector
}

/// High word of a redirection entry delivering to the local APIC `lapic_id`.
pub fn ioapic_redirection_high(lapic_id: u8) -> (r: u32)
    ensures
        r == (lapic_id as u32) << 24u32,
        r >> 24u32 == lapic_id,
{
    proof {
        let x = lapic_id as u32;
        assert((x << 24u32) >> 24u32 == x) by (bit_vector)
            requires x < 256;
    }
    (lapic_id as u32) << 24u32
}

/// The I/O APIC's identifier, from its ID register.
pub fn ioapic_id(id_register: u32) -> (r: u32)
    ensures
        r == (id_register >> 24u32) & 0xF,
        r < 16,
{
    proof {
        assert((id_register >> 24u32) & 0xFu32 < 16) by (bit_vector);
    }
    (id_register >> 24u32) & 0xF
}

/// The highest redirection entry index, from the I/O APIC's version register.
pub fn ioapic_max_redirection(version_register: u32) -> (r: u32)
    ensures
        r == (version_register >> 16u32) & 0xFF,
        r < 256,
{
    proof {
        assert((version_register >> 16u32) & 0xFFu32 < 256) by (bit_vector);
    }
    (version_register >> 16u32) & 0xFF
}

} // verus!
