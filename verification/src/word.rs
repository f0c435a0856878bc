//! Word-level helpers shared by the memory system, the decoder and the
//! executor: wrapping 64-bit address arithmetic, little-endian composition of
//! bytes into words, and extraction of the little-endian bytes of a word.

use vstd::prelude::*;

verus! {

/// Addition on 64-bit addresses wraps around the top of the address space.
pub open spec fn wadd(x: u64, y: u64) -> u64 {
    vstd::wrapping::u64_specs::wrapping_add(x, y)
}

/// Subtraction on 64-bit addresses wraps around the bottom of the address space.
pub open spec fn wsub(x: u64, y: u64) -> u64 {
    vstd::wrapping::u64_specs::wrapping_sub(x, y)
}

/// Wrapping 8-bit addition.
pub open spec fn w8add(x: u8, y: u8) -> u8 {
    vstd::wrapping::u8_specs::wrapping_add(x, y)
}

/// Wrapping 16-bit addition.
pub open spec fn w16add(x: u16, y: u16) -> u16 {
    vstd::wrapping::u16_specs::wrapping_add(x, y)
}

/// Wrapping 32-bit addition.
pub open spec fn w32add(x: u32, y: u32) -> u32 {
    vstd::wrapping::u32_specs::wrapping_add(x, y)
}

/// The 16-bit word whose little-endian bytes are `b0, b1`.
pub open spec fn le16(b0: u8, b1: u8) -> u16 {
    (b0 as u16) | ((b1 as u16) << 8)
}

/// The 32-bit word whose little-endian bytes are `b0, .., b3`.
pub open spec fn le32(b0: u8, b1: u8, b2: u8, b3: u8) -> u32 {
    (b0 as u32) | ((b1 as u32) << 8) | ((b2 as u32) << 16) | ((b3 as u32) << 24)
}

/// The 64-bit word whose little-endian bytes are `b0, .., b7`.
pub open spec fn le64(b0: u8, b1: u8, b2: u8, b3: u8, b4: u8, b5: u8, b6: u8, b7: u8) -> u64 {
    (b0 as u64) | ((b1 as u64) << 8) | ((b2 as u64) << 16) | ((b3 as u64) << 24)
        | ((b4 as u64) << 32) | ((b5 as u64) << 40) | ((b6 as u64) << 48) | ((b7 as u64) << 56)
}

/// Byte `k` (counting from the least significant) of a 16-bit word.
pub open spec fn u16_byte(v: u16, k: u64) -> u8 {
    (v >> (8 * k)) as u8
}

/// Byte `k` (counting from the least significant) of a 32-bit word.
pub open spec fn u32_byte(v: u32, k: u64) -> u8 {
    (v >> (8 * k)) as u8
}

/// Byte `k` (counting from the least significant) of a 64-bit word.
pub open spec fn u64_byte(v: u64, k: u64) -> u8 {
    (v >> (8 * k)) as u8
}

/// Byte 0 of a word is the word truncated to 8 bits.
pub proof fn lemma_u16_byte0(v: u16)
    by (bit_vector)
    ensures
        u16_byte(v, 0) == v as u8,
{
}

/// Byte 0 of a word is the word truncated to 8 bits.
pub proof fn lemma_u32_byte0(v: u32)
    by (bit_vector)
    ensures
        u32_byte(v, 0) == v as u8,
{
}

/// Byte 0 of a word is the word truncated to 8 bits.
pub proof fn lemma_u64_byte0(v: u64)
    by (bit_vector)
    ensures
        u64_byte(v, 0) == v as u8,
{
}

/// Recomposing the little-endian bytes of a 16-bit word gives the word back.
pub proof fn lemma_le16_of_bytes(v: u16)
    by (bit_vector)
    ensures
        le16(u16_byte(v, 0), u16_byte(v, 1)) == v,
{
}

/// Recomposing the little-endian bytes of a 32-bit word gives the word back.
pub proof fn lemma_le32_of_bytes(v: u32)
    by (bit_vector)
    ensures
        le32(u32_byte(v, 0), u32_byte(v, 1), u32_byte(v, 2), u32_byte(v, 3)) == v,
{
}

/// Recomposing the little-endian bytes of a 64-bit word gives the word back.
pub proof fn lemma_le64_of_bytes(v: u64)
    by (bit_vector)
    ensures
        le64(
            u64_byte(v, 0), u64_byte(v, 1), u64_byte(v, 2), u64_byte(v, 3),
            u64_byte(v, 4), u64_byte(v, 5), u64_byte(v, 6), u64_byte(v, 7),
        ) == v,
{
}

} // verus!
