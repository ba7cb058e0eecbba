//! Boot-ROM function table of the RP2350.
//!
//! The ROM keeps, at fixed low addresses, a version byte and a pointer to its
//! own table-lookup routine. Silicon revision A1 stores that pointer as a word
//! at `0x18`; later revisions store a half-word at `0x16`. Everything here only
//! looks at a copy of those ROM bytes and says which ROM routine to call with
//! which arguments; nothing touches flash.
use vstd::prelude::*;
use crate::bytes::{read_le16, read_le32};

verus! {

/// Address of the ROM version byte.
pub const ROM_VERSION_NUMBER_ADDR: usize = 0x13;

/// Address of the word that holds the lookup routine's address on revision A1.
pub const ROM_TABLE_LOOKUP_A1: usize = 0x18;

/// Address of the half-word that holds the lookup routine's address on
/// revision A2 and later.
pub const ROM_TABLE_LOOKUP_A2: usize = 0x16;

/// Number of ROM bytes, counted from address zero, that a lookup may read.
pub const ROM_HEADER_LEN: usize = 0x1c;

/// Function-table mask that selects routines for Secure-mode Arm code.
pub const RT_FLAG_FUNC_ARM_SEC: u32 = 0x0004;

/// The version byte of a ROM whose first bytes are `rom`.
pub open spec fn version_of(rom: Seq<u8>) -> u8 {
    rom[ROM_VERSION_NUMBER_ADDR as int]
}

/// Entry address of the table-lookup routine of a ROM whose first bytes are `rom`.
pub open spec fn lookup_entry_of(rom: Seq<u8>) -> int {
    if version_of(rom) == 1 {
        crate::bytes::le32(rom, ROM_TABLE_LOOKUP_A1 as int)
    } else {
        crate::bytes::le16(rom, ROM_TABLE_LOOKUP_A2 as int)
    }
}

/// Table code of the two characters `c1`, `c2`: the first is the low byte.
pub open spec fn code_of(c1: u8, c2: u8) -> int {
    c1 + 0x100 * c2
}

/// One call of the ROM's table-lookup routine: jump to `entry` with `code` and `mask`.
#[derive(Clone, Copy, PartialEq, Eq, Debug)]
pub struct LookupCall {
    pub entry: usize,
    pub code: u32,
    pub mask: u32,
}

/// The ROM version byte.
pub fn rom_version(rom: &[u8; ROM_HEADER_LEN]) -> (version: u8)
    ensures
        version == version_of(rom@),
{
    rom[ROM_VERSION_NUMBER_ADDR]
}

/// Entry address of the ROM's table-lookup routine.
pub fn rom_table_lookup_fn(rom: &[u8; ROM_HEADER_LEN]) -> (entry: usize)
    ensures
        entry == lookup_entry_of(rom@),
{
    if rom_version(rom) == 1 {
        read_le32(rom.as_slice(), ROM_TABLE_LOOKUP_A1) as usize
    } else {
        read_le16(rom.as_slice(), ROM_TABLE_LOOKUP_A2) as usize
    }
}

/// Packs a two-character function code.
pub fn rom_table_code(c1: u8, c2: u8) -> (code: u32)
    ensures
        code == code_of(c1, c2),
{
    assert((c1 as u32) | ((c2 as u32) << 8) == (c1 as u32) + 0x100 * (c2 as u32)) by (bit_vector);
    (c1 as u32) | ((c2 as u32) << 8)
}

/// The call that looks up the ROM function with code `c1`, `c2`. The routine
/// answers with the function's address, or with zero if it has no such code.
pub fn rom_func_lookup(rom: &[u8; ROM_HEADER_LEN], c1: u8, c2: u8) -> (call: LookupCall)
    ensures
        call.entry == lookup_entry_of(rom@),
        call.code == code_of(c1, c2),
        call.mask == RT_FLAG_FUNC_ARM_SEC,
{
    LookupCall { entry: rom_table_lookup_fn(rom), code: rom_table_code(c1, c2), mask: RT_FLAG_FUNC_ARM_SEC }
}

/// Different two-character codes never collide.
pub proof fn law_codes_are_injective(a1: u8, a2: u8, b1: u8, b2: u8)
    ensures
        code_of(a1, a2) == code_of(b1, b2) <==> a1 == b1 && a2 == b2,
{
}

/// Two ROMs of the same revision that store the same lookup pointer in that
/// revision's slot have the same lookup routine, whatever the other revision's
/// slot holds.
pub proof fn law_other_revision_slot_is_ignored(rom: Seq<u8>, other: Seq<u8>)
    requires
        version_of(rom) == version_of(other),
        version_of(rom) == 1 ==> (forall|i: int| 0x18 <= i < 0x1c ==> rom[i] == other[i]),
        version_of(rom) != 1 ==> (forall|i: int| 0x16 <= i < 0x18 ==> rom[i] == other[i]),
    ensures
        lookup_entry_of(rom) == lookup_entry_of(other),
{
}

/// The version is the byte that the ROM stores at `0x13`.
pub proof fn law_version_is_stored_byte(rom: [u8; ROM_HEADER_LEN], version: u8)
    requires
        call_ensures(rom_version, (&rom,), version),
    ensures
        version == rom@[0x13],
{
}

/// The lookup routine's entry is the pointer that the ROM stores, bit for bit, its
/// Thumb bit with it: the word at `0x18` of a version 1 ROM, the half-word at
/// `0x16` of any other.
pub proof fn law_entry_is_stored_pointer(rom: [u8; ROM_HEADER_LEN], entry: usize)
    requires
        call_ensures(rom_table_lookup_fn, (&rom,), entry),
    ensures
        rom@[0x13] == 1 ==> {
            &&& entry as int % 0x100 == rom@[0x18]
            &&& entry as int / 0x100 % 0x100 == rom@[0x19]
            &&& entry as int / 0x1_0000 % 0x100 == rom@[0x1a]
            &&& entry as int / 0x100_0000 == rom@[0x1b]
        },
        rom@[0x13] != 1 ==> {
            &&& entry as int % 0x100 == rom@[0x16]
            &&& entry as int / 0x100 == rom@[0x17]
        },
{
}

/// ROMs of one revision have the same lookup entry only if they store the same
/// pointer in that revision's slot.
pub proof fn law_different_pointers_give_different_entries(
    rom: [u8; ROM_HEADER_LEN],
    other: [u8; ROM_HEADER_LEN],
    entry: usize,
    other_entry: usize,
)
    requires
        call_ensures(rom_table_lookup_fn, (&rom,), entry),
        call_ensures(rom_table_lookup_fn, (&other,), other_entry),
        (rom@[0x13] == 1) == (other@[0x13] == 1),
    ensures
        rom@[0x13] == 1 ==> (entry == other_entry <==> rom@[0x18] == other@[0x18] && rom@[0x19] == other@[0x19]
            && rom@[0x1a] == other@[0x1a] && rom@[0x1b] == other@[0x1b]),
        rom@[0x13] != 1 ==> (entry == other_entry <==> rom@[0x16] == other@[0x16] && rom@[0x17] == other@[0x17]),
{
}

/// A code holds its first character in the low byte and its second in the next.
pub proof fn law_code_is_its_characters(c1: u8, c2: u8, code: u32)
    requires
        call_ensures(rom_table_code, (c1, c2), code),
    ensures
        code as int % 0x100 == c1,
        code as int / 0x100 == c2,
{
}

/// A lookup jumps to the ROM's lookup routine, asks for the code of its two
/// characters, and always for Secure-mode Arm code.
pub proof fn law_lookup_asks_for_its_code(
    rom: [u8; ROM_HEADER_LEN],
    c1: u8,
    c2: u8,
    call: LookupCall,
    entry: usize,
    code: u32,
)
    requires
        call_ensures(rom_func_lookup, (&rom, c1, c2), call),
        call_ensures(rom_table_lookup_fn, (&rom,), entry),
        call_ensures(rom_table_code, (c1, c2), code),
    ensures
        call.entry == entry,
        call.code == code,
        call.mask == 4,
{
}

} // verus!
