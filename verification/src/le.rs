//! Little-endian integers at arbitrary positions of a byte buffer.

use vstd::prelude::*;

verus! {

/// The 16-bit value whose two bytes lie at `at`, least significant first.
pub open spec fn le_u16(s: Seq<u8>, at: int) -> u16 {
    (s[at] as int + 0x100 * (s[at + 1] as int)) as u16
}

/// The 32-bit value whose four bytes lie at `at`, least significant first.
pub open spec fn le_u32(s: Seq<u8>, at: int) -> u32 {
    (le_u16(s, at) as int + 0x1_0000 * (le_u16(s, at + 2) as int)) as u32
}

/// The 64-bit value whose eight bytes lie at `at`, least significant first.
pub open spec fn le_u64(s: Seq<u8>, at: int) -> u64 {
    (le_u32(s, at) as int + 0x1_0000_0000 * (le_u32(s, at + 4) as int)) as u64
}

/// Reads the 16-bit value at `at`.
pub(crate) fn read_u16(data: &[u8], at: usize) -> (value: u16)
    requires
        at + 2 <= data.len(),
    ensures
        value == le_u16(data@, at as int),
{
    let low: u16 = data[at] as u16;
    let high: u16 = data[at + 1] as u16;
    low + 0x100 * high
}

/// Reads the 32-bit value at `at`.
pub(crate) fn read_u32(data: &[u8], at: usize) -> (value: u32)
    requires
        at + 4 <= data.len(),
    ensures
        value == le_u32(data@, at as int),
{
    let low: u32 = read_u16(data, at) as u32;
    let high: u32 = read_u16(data, at + 2) as u32;
    low + 0x1_0000 * high
}

/// Reads the 64-bit value at `at`.
pub(crate) fn read_u64(data: &[u8], at: usize) -> (value: u64)
    requires
        at + 8 <= data.len(),
    ensures
        value == le_u64(data@, at as int),
{
    let low: u64 = read_u32(data, at) as u64;
    let high: u64 = read_u32(data, at + 4) as u64;
    low + 0x1_0000_0000 * high
}

} // verus!
