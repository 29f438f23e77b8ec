//! Rounding addresses up to a power-of-two alignment.

use vstd::prelude::*;

verus! {

/// `align` is a power of two.
pub open spec fn is_pow2(align: u64) -> bool {
    align != 0 && align & ((align - 1) as u64) == 0
}

/// `x` rounded up to the next multiple of the power of two `align`.
pub open spec fn align_up(x: u64, align: u64) -> u64 {
    ((x + (align - 1)) as u64) & !((align - 1) as u64)
}

/// Rounding up a value to a power of two gives a multiple of it, no smaller than the value
/// and less than one alignment above it.
pub proof fn lemma_align_up(x: u64, align: u64)
    requires
        is_pow2(align),
        x + (align - 1) <= u64::MAX,
    ensures
        align_up(x, align) >= x,
        align_up(x, align) - x < align,
        align_up(x, align) & ((align - 1) as u64) == 0,
{
    let m: u64 = (align - 1) as u64;
    let y: u64 = (x + m) as u64;
    assert(y & !m >= x && (y & !m) - x <= m && (y & !m) & m == 0) by (bit_vector)
        requires
            align != 0,
            align & ((align - 1) as u64) == 0,
            m == (align - 1) as u64,
            x + m <= 0xFFFF_FFFF_FFFF_FFFF,
            y == (x + m) as u64,
    ;
}

} // verus!
