//! 32-bit words as the bytes that a graphics buffer is filled with.

use vstd::prelude::*;

verus! {

/// Byte number `k` of `word`, counting from the least significant.
pub open spec fn byte_of(word: u32, k: int) -> u8 {
    if k == 0 {
        (word as int % 0x100) as u8
    } else if k == 1 {
        (word as int / 0x100 % 0x100) as u8
    } else if k == 2 {
        (word as int / 0x1_0000 % 0x100) as u8
    } else {
        (word as int / 0x100_0000 % 0x100) as u8
    }
}

/// The bytes of `words`, each word least significant byte first.
pub open spec fn little_endian(words: Seq<u32>) -> Seq<u8> {
    Seq::new(4 * words.len(), |k: int| byte_of(words[k / 4], k % 4))
}

/// The bytes of `words`, each word most significant byte first.
pub open spec fn big_endian(words: Seq<u32>) -> Seq<u8> {
    Seq::new(4 * words.len(), |k: int| byte_of(words[k / 4], 3 - k % 4))
}

/// `bytes` holds `words` one after the other, each in the byte order of the
/// machine, which is the same for all of them.
pub open spec fn in_memory_order(bytes: Seq<u8>, words: Seq<u32>) -> bool {
    bytes == little_endian(words) || bytes == big_endian(words)
}

/// Calls `bytemuck::cast_slice` to read a slice of `u32` as bytes, and copies
/// them out. The cast reinterprets the words where they lie, so the result
/// has four bytes for each word, in the order of the words, and each word's
/// bytes in the order in which this machine stores an integer. From `u32` to
/// `u8` the cast has no size or alignment to fail on.
#[verifier::external_body]
pub(crate) fn words_as_bytes(words: &Vec<u32>) -> (bytes: Vec<u8>)
    ensures
        in_memory_order(bytes@, words@),
{
    bytemuck::cast_slice::<u32, u8>(words.as_slice()).to_vec()
}

} // verus!
