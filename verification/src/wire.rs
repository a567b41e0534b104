//! Little-endian integers on byte sequences.

use vstd::prelude::*;

verus! {

/// The value of the four bytes of `bytes` that start at `at`, read as a
/// little-endian 32-bit unsigned integer.
#[verifier::opaque]
pub open spec fn u32_le(bytes: Seq<u8>, at: int) -> u32
    recommends
        0 <= at,
        at + 4 <= bytes.len(),
{
    (bytes[at] as int + 0x100 * (bytes[at + 1] as int) + 0x1_0000 * (bytes[at + 2] as int)
        + 0x100_0000 * (bytes[at + 3] as int)) as u32
}

/// The value of the eight bytes of `bytes` that start at `at`, read as a
/// little-endian 64-bit unsigned integer.
pub open spec fn u64_le(bytes: Seq<u8>, at: int) -> u64
    recommends
        0 <= at,
        at + 8 <= bytes.len(),
{
    (u32_le(bytes, at) as int + 0x1_0000_0000 * (u32_le(bytes, at + 4) as int)) as u64
}

/// The four bytes that hold `value` in little-endian order.
pub open spec fn u32_le_bytes(value: u32) -> Seq<u8> {
    seq![
        (value as int % 0x100) as u8,
        (value as int / 0x100 % 0x100) as u8,
        (value as int / 0x1_0000 % 0x100) as u8,
        (value as int / 0x100_0000 % 0x100) as u8,
    ]
}

/// The eight bytes that hold `value` in little-endian order.
pub open spec fn u64_le_bytes(value: u64) -> Seq<u8> {
    u32_le_bytes((value as int % 0x1_0000_0000) as u32) + u32_le_bytes(
        (value as int / 0x1_0000_0000) as u32,
    )
}

/// Reads the little-endian `u32` at offset `at`.
pub fn read_u32_le(bytes: &[u8], at: usize) -> (value: u32)
    requires
        at + 4 <= bytes@.len(),
    ensures
        value == u32_le(bytes@, at as int),
{
    reveal(u32_le);
    let _len: usize = bytes.len();
    let b0: u32 = bytes[at] as u32;
    let b1: u32 = bytes[at + 1] as u32;
    let b2: u32 = bytes[at + 2] as u32;
    let b3: u32 = bytes[at + 3] as u32;
    b0 + 0x100 * b1 + 0x1_0000 * b2 + 0x100_0000 * b3
}

/// Reads the little-endian `u64` at offset `at`.
pub fn read_u64_le(bytes: &[u8], at: usize) -> (value: u64)
    requires
        at + 8 <= bytes@.len(),
    ensures
        value == u64_le(bytes@, at as int),
{
    let _len: usize = bytes.len();
    let low: u64 = read_u32_le(bytes, at) as u64;
    let high: u64 = read_u32_le(bytes, at + 4) as u64;
    low + 0x1_0000_0000 * high
}

} // verus!
