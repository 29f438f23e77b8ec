//! Little-endian integers read out of byte sequences.

use vstd::prelude::*;

verus! {

/// The little-endian value of the `n` bytes of `s` starting at `off`.
pub open spec fn le(s: Seq<u8>, off: int, n: nat) -> nat
    decreases n,
{
    if n == 0 {
        0
    } else {
        s[off] as nat + 256 * le(s, off + 1, (n - 1) as nat)
    }
}

/// Reads a little-endian `u16` at `off`.
pub fn read_u16(data: &[u8], off: usize) -> (r: u16)
    requires
        off + 2 <= data@.len(),
    ensures
        r == le(data@, off as int, 2),
{
    proof {
        reveal_with_fuel(le, 3);
    }
    data[off] as u16 + 256 * (data[off + 1] as u16)
}

/// Reads a little-endian `u32` at `off`.
pub fn read_u32(data: &[u8], off: usize) -> (r: u32)
    requires
        off + 4 <= data@.len(),
    ensures
        r == le(data@, off as int, 4),
{
    proof {
        reveal_with_fuel(le, 5);
    }
    let len = data.len();
    assert(off + 3 < len);
    let mut v: u32 = data[off + 3] as u32;
    v = data[off + 2] as u32 + 256 * v;
    v = data[off + 1] as u32 + 256 * v;
    v = data[off] as u32 + 256 * v;
    v
}

/// Reads a little-endian `u64` at `off`.
pub fn read_u64(data: &[u8], off: usize) -> (r: u64)
    requires
        off + 8 <= data@.len(),
    ensures
        r == le(data@, off as int, 8),
{
    proof {
        reveal_with_fuel(le, 9);
    }
    let len = data.len();
    assert(off + 7 < len);
    let mut v: u64 = data[off + 7] as u64;
    v = data[off + 6] as u64 + 256 * v;
    v = data[off + 5] as u64 + 256 * v;
    v = data[off + 4] as u64 + 256 * v;
    v = data[off + 3] as u64 + 256 * v;
    v = data[off + 2] as u64 + 256 * v;
    v = data[off + 1] as u64 + 256 * v;
    v = data[off] as u64 + 256 * v;
    v
}

} // verus!
