//! Flash erase and program sequences of the RP2350.
//!
//! A flash operation runs a handful of boot-ROM routines in a fixed order while
//! execute-in-place (XIP) is off, and ends by re-running the chip's second-stage
//! boot code ("boot2") from a copy in RAM, which turns XIP back on. This module
//! resolves the routines, keeps the copy, and says which calls make up one
//! operation. The calls themselves are made by RAM-resident code: a plan is
//! complete before its first call, so nothing needs flash while XIP is off.
use vstd::prelude::*;
use crate::rom::{rom_func_lookup, LookupCall, ROM_HEADER_LEN};

verus! {

/// Base of the boot RAM, where the boot ROM leaves the boot2 code it used.
pub const BOOTRAM_BASE: usize = 0x400e_0000;

/// Length of the boot2 code in words.
pub const BOOT2_SIZE_WORDS: usize = 64;

/// Erase granularity in bytes.
pub const FLASH_SECTOR_SIZE: u32 = 4096;

/// JEDEC SPI-NOR "sector erase" opcode.
pub const FLASH_SECTOR_ERASE_CMD: u8 = 0x20;

/// Program granularity in bytes.
pub const FLASH_PAGE_SIZE: usize = 256;

/// Addresses of the six boot-ROM routines that a flash write needs. Zero means
/// that the ROM has no such routine.
#[derive(Clone, Copy, PartialEq, Eq, Debug)]
pub struct FlashRomFns {
    pub connect_internal_flash: usize,
    pub flash_exit_xip: usize,
    pub flash_range_erase: usize,
    pub flash_range_program: usize,
    pub flash_flush_cache: usize,
    pub flash_enter_cmd_xip: usize,
}

/// Two-character ROM codes of the six routines, in the order of the fields of
/// [`FlashRomFns`].
pub open spec fn flash_fn_codes() -> Seq<(u8, u8)> {
    seq![('I' as u8, 'F' as u8), ('E' as u8, 'X' as u8), ('R' as u8, 'E' as u8), ('R' as u8, 'P' as u8), ('F' as u8, 'C' as u8), ('C' as u8, 'X' as u8)]
}

/// `calls` asks the table of a ROM whose first bytes are `rom` for the six
/// routines in field order, for Secure-mode Arm code.
pub open spec fn are_lookup_calls(rom: Seq<u8>, calls: Seq<LookupCall>) -> bool {
    &&& calls.len() == 6
    &&& forall|i: int|
        0 <= i < 6 ==> {
            &&& (#[trigger] calls[i]).entry == crate::rom::lookup_entry_of(rom)
            &&& calls[i].code == crate::rom::code_of(flash_fn_codes()[i].0, flash_fn_codes()[i].1)
            &&& calls[i].mask == crate::rom::RT_FLAG_FUNC_ARM_SEC
        }
}

impl FlashRomFns {
    /// The six addresses in field order.
    pub open spec fn addresses(self) -> Seq<usize> {
        seq![
            self.connect_internal_flash,
            self.flash_exit_xip,
            self.flash_range_erase,
            self.flash_range_program,
            self.flash_flush_cache,
            self.flash_enter_cmd_xip,
        ]
    }

    /// Every routine was found, and no two share an address.
    pub open spec fn resolved(self) -> bool {
        &&& !self.addresses().contains(0)
        &&& self.addresses().no_duplicates()
    }

    /// The six table lookups to make, in field order.
    pub fn lookup_calls(rom: &[u8; ROM_HEADER_LEN]) -> (calls: [LookupCall; 6])
        ensures
            are_lookup_calls(rom@, calls@),
    {
        [
            rom_func_lookup(rom, 'I' as u8, 'F' as u8),
            rom_func_lookup(rom, 'E' as u8, 'X' as u8),
            rom_func_lookup(rom, 'R' as u8, 'E' as u8),
            rom_func_lookup(rom, 'R' as u8, 'P' as u8),
            rom_func_lookup(rom, 'F' as u8, 'C' as u8),
            rom_func_lookup(rom, 'C' as u8, 'X' as u8),
        ]
    }

    /// Collects the answers to [`FlashRomFns::lookup_calls`], given in the same order.
    pub fn lookup(found: &[usize; 6]) -> (fns: Self)
        ensures
            fns.addresses() == found@,
    {
        let fns = FlashRomFns {
            connect_internal_flash: found[0],
            flash_exit_xip: found[1],
            flash_range_erase: found[2],
            flash_range_program: found[3],
            flash_flush_cache: found[4],
            flash_enter_cmd_xip: found[5],
        };
        assert(fns.addresses() =~= found@);
        fns
    }

    /// True if every lookup found an address and no two codes resolved to the
    /// same one.
    pub fn all_resolved_and_distinct(&self) -> (ok: bool)
        ensures
            ok == self.resolved(),
    {
        let ptrs: [usize; 6] = [
            self.connect_internal_flash,
            self.flash_exit_xip,
            self.flash_range_erase,
            self.flash_range_program,
            self.flash_flush_cache,
            self.flash_enter_cmd_xip,
        ];
        assert(ptrs@ =~= self.addresses());
        let mut i: usize = 0;
        while i < ptrs.len()
            invariant
                i <= 6,
                ptrs@ == self.addresses(),
                forall|k: int| 0 <= k < i ==> ptrs@[k] != 0,
            decreases 6 - i,
        {
            if ptrs[i] == 0 {
                assert(self.addresses()[i as int] == 0);
                return false;
            }
            i += 1;
        }
        let mut i: usize = 0;
        while i < ptrs.len()
            invariant
                i <= 6,
                ptrs@ == self.addresses(),
                forall|k: int, l: int| 0 <= k < i && k < l < 6 ==> ptrs@[k] != ptrs@[l],
            decreases 6 - i,
        {
            let mut j: usize = i + 1;
            while j < ptrs.len()
                invariant
                    i < j <= 6,
                    ptrs@ == self.addresses(),
                    forall|l: int| i < l < j ==> ptrs@[i as int] != ptrs@[l],
                decreases 6 - j,
            {
                if ptrs[i] == ptrs[j] {
                    assert(self.addresses()[i as int] == self.addresses()[j as int]);
                    return false;
                }
                j += 1;
            }
            i += 1;
        }
        true
    }
}

/// RAM copy of the boot2 code. `valid` is set once the words have been copied.
#[derive(Clone, Copy, PartialEq, Eq, Debug)]
pub struct Boot2Copy {
    pub words: [u32; BOOT2_SIZE_WORDS],
    pub valid: bool,
}

impl Boot2Copy {
    /// An empty copy.
    pub fn new() -> (copy: Self)
        ensures
            !copy.valid,
            copy.words@ == Seq::new(BOOT2_SIZE_WORDS as nat, |i: int| 0u32),
    {
        let copy = Boot2Copy { words: [0u32; BOOT2_SIZE_WORDS], valid: false };
        assert(copy.words@ =~= Seq::new(BOOT2_SIZE_WORDS as nat, |i: int| 0u32));
        copy
    }
}

/// Address in boot RAM of boot2 word `i`.
pub fn boot2_word_addr(i: usize) -> (addr: usize)
    requires
        i < BOOT2_SIZE_WORDS,
    ensures
        addr == BOOTRAM_BASE + 4 * i,
{
    BOOTRAM_BASE + 4 * i
}

/// Fills the RAM copy with the boot2 words read from boot RAM, unless it has
/// been filled before: a valid copy stays as it is, and `bootram` is not looked
/// at. Must run before XIP is ever turned off.
pub fn init_boot2_ram_copy(copy: &mut Boot2Copy, bootram: &[u32; BOOT2_SIZE_WORDS])
    ensures
        final(copy).valid,
        old(copy).valid ==> *final(copy) == *old(copy),
        !old(copy).valid ==> final(copy).words@ == bootram@,
{
    if copy.valid {
        return;
    }
    let mut i: usize = 0;
    while i < BOOT2_SIZE_WORDS
        invariant
            i <= BOOT2_SIZE_WORDS,
            forall|k: int| 0 <= k < i ==> copy.words@[k] == bootram@[k],
        decreases BOOT2_SIZE_WORDS - i,
    {
        copy.words[i] = bootram[i];
        i += 1;
    }
    assert(copy.words@ =~= bootram@);
    copy.valid = true;
}

/// One call of a flash operation. `entry` is the address to jump to; the other
/// fields are the routine's arguments in order.
#[derive(Clone, Copy, PartialEq, Eq, Debug)]
pub enum FlashCall<'a> {
    /// Connect the flash chip to the bus.
    ConnectInternalFlash { entry: usize },
    /// Turn XIP off.
    ExitXip { entry: usize },
    /// Erase `count` bytes from `offset` in blocks of `block_size` with opcode `block_cmd`.
    RangeErase { entry: usize, offset: u32, count: usize, block_size: u32, block_cmd: u8 },
    /// Program `data` (passed as address and length) at `offset`.
    RangeProgram { entry: usize, offset: u32, data: &'a [u8] },
    /// Drop cached flash contents.
    FlushCache { entry: usize },
    /// Run the RAM copy of boot2, which turns XIP back on.
    RunBoot2 { entry: usize },
}

/// The call that turns XIP back on through the RAM copy of boot2 at `copy_addr`:
/// the jump address has the Thumb bit set.
pub fn enable_xip_via_boot2_ram<'a>(copy_addr: usize) -> (call: FlashCall<'a>)
    ensures
        call == (FlashCall::RunBoot2 { entry: copy_addr | 1 }),
{
    FlashCall::RunBoot2 { entry: copy_addr | 1 }
}

/// The jump into a word-aligned copy lands one past its address, the Thumb
/// encoding of that address.
pub proof fn law_boot2_entry_is_thumb_address(copy_addr: usize)
    requires
        copy_addr % 4 == 0,
    ensures
        copy_addr | 1 == copy_addr + 1,
{
    assert(copy_addr | 1 == copy_addr + 1) by (bit_vector)
        requires
            copy_addr % 4 == 0,
    ;
}

/// The calls around one flash operation `op`.
pub open spec fn operation<'a>(fns: FlashRomFns, copy_addr: usize, op: FlashCall<'a>) -> Seq<FlashCall<'a>> {
    seq![
        FlashCall::ConnectInternalFlash { entry: fns.connect_internal_flash },
        FlashCall::ExitXip { entry: fns.flash_exit_xip },
        op,
        FlashCall::FlushCache { entry: fns.flash_flush_cache },
        FlashCall::RunBoot2 { entry: copy_addr | 1 },
    ]
}

/// The erase call for the sector at `offset`.
pub open spec fn sector_erase<'a>(fns: FlashRomFns, offset: u32) -> FlashCall<'a> {
    FlashCall::RangeErase {
        entry: fns.flash_range_erase,
        offset,
        count: FLASH_SECTOR_SIZE as usize,
        block_size: FLASH_SECTOR_SIZE,
        block_cmd: FLASH_SECTOR_ERASE_CMD,
    }
}

/// The program call for `data` at `offset`.
pub open spec fn page_program<'a>(fns: FlashRomFns, offset: u32, data: &'a [u8]) -> FlashCall<'a> {
    FlashCall::RangeProgram { entry: fns.flash_range_program, offset, data }
}

/// The calls that erase the sector at `offset`, counted from the flash base.
/// `copy_addr` is the RAM address of the words of `boot2`.
///
/// The other core must stay parked in RAM-resident code from before the first
/// call until after the last.
pub fn erase_sector_from_ram<'a>(
    rom_fns: &FlashRomFns,
    boot2: &Boot2Copy,
    copy_addr: usize,
    offset: u32,
) -> (calls: [FlashCall<'a>; 5])
    requires
        rom_fns.resolved(),
        boot2.valid,
        offset % FLASH_SECTOR_SIZE == 0,
    ensures
        calls@ == operation(*rom_fns, copy_addr, sector_erase(*rom_fns, offset)),
{
    let calls = [
        FlashCall::ConnectInternalFlash { entry: rom_fns.connect_internal_flash },
        FlashCall::ExitXip { entry: rom_fns.flash_exit_xip },
        FlashCall::RangeErase {
            entry: rom_fns.flash_range_erase,
            offset,
            count: FLASH_SECTOR_SIZE as usize,
            block_size: FLASH_SECTOR_SIZE,
            block_cmd: FLASH_SECTOR_ERASE_CMD,
        },
        FlashCall::FlushCache { entry: rom_fns.flash_flush_cache },
        enable_xip_via_boot2_ram(copy_addr),
    ];
    assert(calls@ =~= operation(*rom_fns, copy_addr, sector_erase(*rom_fns, offset)));
    calls
}

/// The calls that program `data` at `offset`, counted from the flash base.
/// `data` must lie in RAM, and the range must have been erased.
///
/// The other core must stay parked in RAM-resident code from before the first
/// call until after the last.
pub fn program_from_ram<'a>(
    rom_fns: &FlashRomFns,
    boot2: &Boot2Copy,
    copy_addr: usize,
    offset: u32,
    data: &'a [u8],
) -> (calls: [FlashCall<'a>; 5])
    requires
        rom_fns.resolved(),
        boot2.valid,
        data@.len() % FLASH_PAGE_SIZE as nat == 0,
    ensures
        calls@ == operation(*rom_fns, copy_addr, page_program(*rom_fns, offset, data)),
{
    let calls = [
        FlashCall::ConnectInternalFlash { entry: rom_fns.connect_internal_flash },
        FlashCall::ExitXip { entry: rom_fns.flash_exit_xip },
        FlashCall::RangeProgram { entry: rom_fns.flash_range_program, offset, data },
        FlashCall::FlushCache { entry: rom_fns.flash_flush_cache },
        enable_xip_via_boot2_ram(copy_addr),
    ];
    assert(calls@ =~= operation(*rom_fns, copy_addr, page_program(*rom_fns, offset, data)));
    calls
}

/// Whatever table the ROM holds, each field ends up with the table's answer for
/// its own two-character code.
pub proof fn law_lookup_fields_match_codes(
    table: spec_fn(int) -> usize,
    rom: Seq<u8>,
    calls: Seq<LookupCall>,
    fns: FlashRomFns,
)
    requires
        are_lookup_calls(rom, calls),
        forall|i: int| 0 <= i < 6 ==> #[trigger] fns.addresses()[i] == table(calls[i].code as int),
    ensures
        fns.connect_internal_flash == table(crate::rom::code_of('I' as u8, 'F' as u8)),
        fns.flash_exit_xip == table(crate::rom::code_of('E' as u8, 'X' as u8)),
        fns.flash_range_erase == table(crate::rom::code_of('R' as u8, 'E' as u8)),
        fns.flash_range_program == table(crate::rom::code_of('R' as u8, 'P' as u8)),
        fns.flash_flush_cache == table(crate::rom::code_of('F' as u8, 'C' as u8)),
        fns.flash_enter_cmd_xip == table(crate::rom::code_of('C' as u8, 'X' as u8)),
{
    let a = fns.addresses();
    assert(a[0] == table(calls[0].code as int));
    assert(a[1] == table(calls[1].code as int));
    assert(a[2] == table(calls[2].code as int));
    assert(a[3] == table(calls[3].code as int));
    assert(a[4] == table(calls[4].code as int));
    assert(a[5] == table(calls[5].code as int));
}

/// Looking the routines up again gives the same six addresses, as long as the ROM
/// and its table are the same; and every jump of a lookup goes to the table
/// routine, so that none of the six routines is called, unless the table gives
/// out its own routine as one of them.
pub proof fn law_lookup_is_repeatable(
    table: spec_fn(LookupCall) -> usize,
    rom: Seq<u8>,
    calls: Seq<LookupCall>,
    again: Seq<LookupCall>,
    fns: FlashRomFns,
    fns_again: FlashRomFns,
)
    requires
        are_lookup_calls(rom, calls),
        are_lookup_calls(rom, again),
        forall|i: int| 0 <= i < 6 ==> #[trigger] fns.addresses()[i] == table(calls[i]),
        forall|i: int| 0 <= i < 6 ==> #[trigger] fns_again.addresses()[i] == table(again[i]),
    ensures
        calls == again,
        fns == fns_again,
        forall|i: int| 0 <= i < 6 ==> (#[trigger] calls[i]).entry == crate::rom::lookup_entry_of(rom),
        (forall|i: int| 0 <= i < 6 ==> #[trigger] fns.addresses()[i] != crate::rom::lookup_entry_of(rom))
            ==> forall|i: int| 0 <= i < 6 ==> !fns.addresses().contains((#[trigger] calls[i]).entry),
{
    assert(calls =~= again);
    let a = fns.addresses();
    let b = fns_again.addresses();
    assert(a[0] == b[0] && a[1] == b[1] && a[2] == b[2] && a[3] == b[3] && a[4] == b[4] && a[5] == b[5]);
}

/// The address that a call jumps to.
pub open spec fn entry_of(call: FlashCall) -> usize {
    match call {
        FlashCall::ConnectInternalFlash { entry } => entry,
        FlashCall::ExitXip { entry } => entry,
        FlashCall::RangeErase { entry, .. } => entry,
        FlashCall::RangeProgram { entry, .. } => entry,
        FlashCall::FlushCache { entry } => entry,
        FlashCall::RunBoot2 { entry } => entry,
    }
}

/// With all routines resolved, no call of an erase or program sequence jumps to
/// address zero.
pub proof fn law_resolved_calls_are_not_null(
    fns: FlashRomFns,
    copy_addr: usize,
    offset: u32,
    data: &[u8],
    i: int,
)
    requires
        fns.resolved(),
        0 <= i < 5,
    ensures
        entry_of(operation(fns, copy_addr, sector_erase(fns, offset))[i]) != 0,
        entry_of(operation(fns, copy_addr, page_program(fns, offset, data))[i]) != 0,
{
    let a = fns.addresses();
    assert(a[0] != 0 && a[1] != 0 && a[2] != 0 && a[3] != 0 && a[4] != 0);
    assert(copy_addr | 1 != 0) by (bit_vector);
}

/// Whatever the ROM's table routine answers, each routine's address is its answer
/// to that routine's own two characters, asked at the ROM's lookup entry for
/// Secure-mode Arm code.
pub proof fn law_each_routine_is_looked_up_by_its_name(
    table: spec_fn(usize, u32, u32) -> usize,
    rom: [u8; ROM_HEADER_LEN],
    entry: usize,
    calls: [LookupCall; 6],
    found: [usize; 6],
    fns: FlashRomFns,
)
    requires
        call_ensures(crate::rom::rom_table_lookup_fn, (&rom,), entry),
        call_ensures(FlashRomFns::lookup_calls, (&rom,), calls),
        forall|i: int|
            0 <= i < 6 ==> #[trigger] found@[i] == table(calls@[i].entry, calls@[i].code, calls@[i].mask),
        call_ensures(FlashRomFns::lookup, (&found,), fns),
    ensures
        fns.connect_internal_flash == table(entry, 0x4649, 4),
        fns.flash_exit_xip == table(entry, 0x5845, 4),
        fns.flash_range_erase == table(entry, 0x4552, 4),
        fns.flash_range_program == table(entry, 0x5052, 4),
        fns.flash_flush_cache == table(entry, 0x4346, 4),
        fns.flash_enter_cmd_xip == table(entry, 0x5843, 4),
{
    assert(calls@.len() == 6);
    let a = fns.addresses();
    assert(a == found@);
    assert(a[0] == found@[0] && calls@[0].code == 0x4649);
    assert(a[1] == found@[1] && calls@[1].code == 0x5845);
    assert(a[2] == found@[2] && calls@[2].code == 0x4552);
    assert(a[3] == found@[3] && calls@[3].code == 0x5052);
    assert(a[4] == found@[4] && calls@[4].code == 0x4346);
    assert(a[5] == found@[5] && calls@[5].code == 0x5843);
}

/// The answers fill the fields in order, whatever they are.
pub proof fn law_answers_fill_fields_in_order(found: [usize; 6], fns: FlashRomFns)
    requires
        call_ensures(FlashRomFns::lookup, (&found,), fns),
    ensures
        fns.connect_internal_flash == found@[0],
        fns.flash_exit_xip == found@[1],
        fns.flash_range_erase == found@[2],
        fns.flash_range_program == found@[3],
        fns.flash_flush_cache == found@[4],
        fns.flash_enter_cmd_xip == found@[5],
{
    let a = fns.addresses();
    assert(a[0] == found@[0] && a[1] == found@[1] && a[2] == found@[2]);
    assert(a[3] == found@[3] && a[4] == found@[4] && a[5] == found@[5]);
}

/// The routines are accepted exactly if none of the six addresses is zero and no
/// two of them are equal.
pub proof fn law_accepted_routines_are_usable_and_different(fns: FlashRomFns, ok: bool)
    requires
        call_ensures(FlashRomFns::all_resolved_and_distinct, (&fns,), ok),
    ensures
        ok == fns.resolved(),
        ok <==> {
            let c = fns.connect_internal_flash;
            let x = fns.flash_exit_xip;
            let e = fns.flash_range_erase;
            let p = fns.flash_range_program;
            let f = fns.flash_flush_cache;
            let m = fns.flash_enter_cmd_xip;
            &&& c != 0 && x != 0 && e != 0 && p != 0 && f != 0 && m != 0
            &&& c != x && c != e && c != p && c != f && c != m
            &&& x != e && x != p && x != f && x != m
            &&& e != p && e != f && e != m
            &&& p != f && p != m
            &&& f != m
        },
{
    let a = fns.addresses();
    assert(a[0] == fns.connect_internal_flash && a[1] == fns.flash_exit_xip && a[2] == fns.flash_range_erase);
    assert(a[3] == fns.flash_range_program && a[4] == fns.flash_flush_cache && a[5] == fns.flash_enter_cmd_xip);
}

/// The first copy of boot2 takes all of its words, and a second one changes
/// nothing, whatever boot RAM holds by then.
pub proof fn law_boot2_is_copied_whole_and_once(
    empty: Boot2Copy,
    first: &mut Boot2Copy,
    second: &mut Boot2Copy,
    bootram: [u32; BOOT2_SIZE_WORDS],
    later: [u32; BOOT2_SIZE_WORDS],
)
    requires
        call_ensures(Boot2Copy::new, (), empty),
        *old(first) == empty,
        call_ensures(init_boot2_ram_copy, (first, &bootram), ()),
        *old(second) == *final(first),
        call_ensures(init_boot2_ram_copy, (second, &later), ()),
    ensures
        !empty.valid,
        final(first).valid,
        final(first).words@.len() == 64,
        forall|i: int| 0 <= i < 64 ==> #[trigger] final(first).words@[i] == bootram@[i],
        *final(second) == *final(first),
{
}

/// Boot2's words lie one after the other from the base of boot RAM.
pub proof fn law_boot2_words_are_consecutive(i: usize, addr: usize)
    requires
        i < 64,
        call_ensures(boot2_word_addr, (i,), addr),
    ensures
        addr - 0x400e_0000 == 4 * i,
{
}

/// Each of the five calls that erase a sector jumps to the routine of its own
/// kind, in the order connect, exit XIP, erase, flush, boot2; the erase is given
/// exactly the sector at `offset`, as one block with the sector-erase opcode; and
/// boot2 is entered at its copy with the Thumb bit set.
pub proof fn law_erase_calls_jump_to_their_own_routines<'a>(
    fns: FlashRomFns,
    boot2: Boot2Copy,
    copy_addr: usize,
    offset: u32,
    calls: [FlashCall<'a>; 5],
)
    requires
        call_ensures(erase_sector_from_ram, (&fns, &boot2, copy_addr, offset), calls),
    ensures
        calls@[0] matches FlashCall::ConnectInternalFlash { entry } && entry == fns.connect_internal_flash,
        calls@[1] matches FlashCall::ExitXip { entry } && entry == fns.flash_exit_xip,
        calls@[2] matches FlashCall::RangeErase { entry, offset: o, count, block_size, block_cmd } && entry
            == fns.flash_range_erase && o == offset && count == 4096 && block_size == 4096 && block_cmd == 0x20,
        calls@[3] matches FlashCall::FlushCache { entry } && entry == fns.flash_flush_cache,
        calls@[4] matches FlashCall::RunBoot2 { entry } && entry % 2 == 1 && entry / 2 == copy_addr / 2,
        calls@ == operation(fns, copy_addr, sector_erase(fns, offset)),
{
    lemma_thumb_bit(copy_addr);
}

/// Each of the five calls that program data jumps to the routine of its own kind,
/// in the order connect, exit XIP, program, flush, boot2; the program routine is
/// given exactly `data` and `offset`; and boot2 is entered at its copy with the
/// Thumb bit set.
pub proof fn law_program_calls_jump_to_their_own_routines<'a>(
    fns: FlashRomFns,
    boot2: Boot2Copy,
    copy_addr: usize,
    offset: u32,
    data: &'a [u8],
    calls: [FlashCall<'a>; 5],
)
    requires
        call_ensures(program_from_ram, (&fns, &boot2, copy_addr, offset, data), calls),
    ensures
        calls@[0] matches FlashCall::ConnectInternalFlash { entry } && entry == fns.connect_internal_flash,
        calls@[1] matches FlashCall::ExitXip { entry } && entry == fns.flash_exit_xip,
        calls@[2] matches FlashCall::RangeProgram { entry, offset: o, data: d } && entry == fns.flash_range_program
            && o == offset && d == data,
        calls@[3] matches FlashCall::FlushCache { entry } && entry == fns.flash_flush_cache,
        calls@[4] matches FlashCall::RunBoot2 { entry } && entry % 2 == 1 && entry / 2 == copy_addr / 2,
        calls@ == operation(fns, copy_addr, page_program(fns, offset, data)),
{
    lemma_thumb_bit(copy_addr);
}

/// Boot2 is entered at its copy with the Thumb bit set, wherever the copy lies.
pub proof fn law_boot2_is_entered_in_thumb_state<'a>(copy_addr: usize, call: FlashCall<'a>)
    requires
        call_ensures(enable_xip_via_boot2_ram, (copy_addr,), call),
    ensures
        call matches FlashCall::RunBoot2 { entry } && entry % 2 == 1 && entry / 2 == copy_addr / 2,
{
    lemma_thumb_bit(copy_addr);
}

proof fn lemma_thumb_bit(addr: usize)
    ensures
        (addr | 1) % 2 == 1,
        (addr | 1) / 2 == addr / 2,
{
    assert((addr | 1) % 2 == 1 && (addr | 1) / 2 == addr / 2) by (bit_vector);
}

} // verus!
