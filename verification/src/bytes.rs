//! Big-endian integers in a byte sequence.

use vstd::prelude::*;

verus! {

/// The unsigned 16-bit integer whose big-endian bytes stand at `at` and `at + 1`.
pub open spec fn be_u16(bytes: Seq<u8>, at: int) -> int {
    bytes[at] * 0x100 + bytes[at + 1]
}

/// The unsigned 32-bit integer whose big-endian bytes stand at `at` .. `at + 3`.
pub open spec fn be_u32(bytes: Seq<u8>, at: int) -> int {
    bytes[at] * 0x100_0000 + bytes[at + 1] * 0x1_0000 + bytes[at + 2] * 0x100 + bytes[at + 3]
}

proof fn lemma_join_u16(hi: u8, lo: u8)
    ensures
        ((hi as u16) << 8 | (lo as u16)) == hi * 0x100 + lo,
{
    assert(((hi as u16) << 8 | (lo as u16)) == (hi as u16) * 0x100 + (lo as u16)) by (bit_vector);
}

proof fn lemma_join_u32(b0: u8, b1: u8, b2: u8, b3: u8)
    ensures
        ((b0 as u32) << 24 | (b1 as u32) << 16 | (b2 as u32) << 8 | (b3 as u32)) == b0 * 0x100_0000
            + b1 * 0x1_0000 + b2 * 0x100 + b3,
{
    assert(((b0 as u32) << 24 | (b1 as u32) << 16 | (b2 as u32) << 8 | (b3 as u32)) == (b0 as u32)
        * 0x100_0000 + (b1 as u32) * 0x1_0000 + (b2 as u32) * 0x100 + (b3 as u32)) by (bit_vector);
}

/// Reads the big-endian 16-bit integer at `at`.
pub fn read_be_u16(bytes: &[u8], at: usize) -> (value: u16)
    requires
        at + 2 <= bytes@.len(),
    ensures
        value == be_u16(bytes@, at as int),
{
    let hi: u8 = bytes[at];
    let lo: u8 = bytes[at + 1];
    proof {
        lemma_join_u16(hi, lo);
    }
    (hi as u16) << 8 | (lo as u16)
}

/// Reads the big-endian 32-bit integer at `at`.
pub fn read_be_u32(bytes: &[u8], at: usize) -> (value: u32)
    requires
        at + 4 <= bytes@.len(),
    ensures
        value == be_u32(bytes@, at as int),
{
    let b0: u8 = bytes[at];
    let b1: u8 = bytes[at + 1];
    let b2: u8 = bytes[at + 2];
    let b3: u8 = bytes[at + 3];
    proof {
        lemma_join_u32(b0, b1, b2, b3);
    }
    (b0 as u32) << 24 | (b1 as u32) << 16 | (b2 as u32) << 8 | (b3 as u32)
}

} // verus!
