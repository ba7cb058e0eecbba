//! Little-endian words inside byte buffers.
use vstd::prelude::*;

verus! {

/// The 16-bit little-endian number whose low byte is at index `at`.
pub open spec fn le16(bytes: Seq<u8>, at: int) -> int {
    bytes[at] + 0x100 * bytes[at + 1]
}

/// The 32-bit little-endian number whose low byte is at index `at`.
pub open spec fn le32(bytes: Seq<u8>, at: int) -> int {
    bytes[at] + 0x100 * bytes[at + 1] + 0x1_0000 * bytes[at + 2] + 0x100_0000 * bytes[at + 3]
}

/// Reads the little-endian half-word at `at`.
pub fn read_le16(bytes: &[u8], at: usize) -> (value: u16)
    requires
        at + 2 <= bytes@.len(),
    ensures
        value == le16(bytes@, at as int),
{
    bytes[at] as u16 + 0x100 * (bytes[at + 1] as u16)
}

/// Reads the little-endian word at `at`.
pub fn read_le32(bytes: &[u8], at: usize) -> (value: u32)
    requires
        at + 4 <= bytes@.len(),
    ensures
        value == le32(bytes@, at as int),
{
    bytes[at] as u32 + 0x100 * (bytes[at + 1] as u32) + 0x1_0000 * (bytes[at + 2] as u32)
        + 0x100_0000 * (bytes[at + 3] as u32)
}

/// The byte of `word` that little-endian order puts at position `k` of four.
pub open spec fn le_byte(word: u32, k: int) -> u8 {
    if k == 0 {
        (word % 0x100) as u8
    } else if k == 1 {
        (word / 0x100 % 0x100) as u8
    } else if k == 2 {
        (word / 0x1_0000 % 0x100) as u8
    } else {
        (word / 0x100_0000) as u8
    }
}

/// Four bytes in little-endian order read back as the word they were taken from.
pub proof fn lemma_le32_of_le_bytes(word: u32, bytes: Seq<u8>, at: int)
    requires
        bytes[at] == le_byte(word, 0),
        bytes[at + 1] == le_byte(word, 1),
        bytes[at + 2] == le_byte(word, 2),
        bytes[at + 3] == le_byte(word, 3),
    ensures
        le32(bytes, at) == word,
{
}

/// The bytes at `at` are the digits of the half-word read there, low byte first.
pub proof fn law_half_word_is_its_bytes(bytes: &[u8], at: usize, value: u16)
    requires
        at + 2 <= bytes@.len(),
        call_ensures(read_le16, (bytes, at), value),
    ensures
        value as int % 0x100 == bytes@[at as int],
        value as int / 0x100 == bytes@[at + 1],
{
}

/// The bytes at `at` are the digits of the word read there, low byte first.
pub proof fn law_word_is_its_bytes(bytes: &[u8], at: usize, value: u32)
    requires
        at + 4 <= bytes@.len(),
        call_ensures(read_le32, (bytes, at), value),
    ensures
        value as int % 0x100 == bytes@[at as int],
        value as int / 0x100 % 0x100 == bytes@[at + 1],
        value as int / 0x1_0000 % 0x100 == bytes@[at + 2],
        value as int / 0x100_0000 == bytes@[at + 3],
{
}

/// The four bytes of a word are its digits, low byte first.
pub proof fn law_le_bytes_are_digits(word: u32)
    ensures
        word == le_byte(word, 0) + 0x100 * le_byte(word, 1) + 0x1_0000 * le_byte(word, 2) + 0x100_0000 * le_byte(
            word,
            3,
        ),
{
}

} // verus!
