//! What the flash call sequences do to an ideal SPI-NOR chip.
//!
//! The chip is a row of bytes. Erasing sets every bit of a range, programming
//! can only clear bits, and either is possible only while the chip is connected
//! and XIP is off.
use vstd::prelude::*;
use crate::flash::FlashCall;

verus! {

/// An ideal NOR chip: its contents, whether it is connected, whether XIP is on.
#[verifier::ext_equal]
pub struct NorChip {
    pub bytes: Seq<u8>,
    pub connected: bool,
    pub xip: bool,
}

/// `bytes` with the `count` bytes from `offset` erased.
pub open spec fn erased(bytes: Seq<u8>, offset: int, count: int) -> Seq<u8> {
    Seq::new(bytes.len(), |i: int| if offset <= i < offset + count { 0xFFu8 } else { bytes[i] })
}

/// `bytes` with `data` programmed at `offset`.
pub open spec fn programmed(bytes: Seq<u8>, offset: int, data: Seq<u8>) -> Seq<u8> {
    Seq::new(
        bytes.len(),
        |i: int| if offset <= i < offset + data.len() { bytes[i] & data[i - offset] } else { bytes[i] },
    )
}

impl NorChip {
    /// The chip can take `call`: erasing and programming need a connected chip,
    /// XIP off, and a range inside the chip.
    pub open spec fn admits(self, call: FlashCall) -> bool {
        match call {
            FlashCall::RangeErase { offset, count, .. } => {
                self.connected && !self.xip && offset + count <= self.bytes.len()
            },
            FlashCall::RangeProgram { offset, data, .. } => {
                self.connected && !self.xip && offset + data@.len() <= self.bytes.len()
            },
            _ => true,
        }
    }

    /// The chip after `call`.
    pub open spec fn after(self, call: FlashCall) -> NorChip {
        match call {
            FlashCall::ConnectInternalFlash { .. } => NorChip { connected: true, ..self },
            FlashCall::ExitXip { .. } => NorChip { xip: false, ..self },
            FlashCall::RangeErase { offset, count, .. } => NorChip {
                bytes: erased(self.bytes, offset as int, count as int),
                ..self
            },
            FlashCall::RangeProgram { offset, data, .. } => NorChip {
                bytes: programmed(self.bytes, offset as int, data@),
                ..self
            },
            FlashCall::FlushCache { .. } => self,
            FlashCall::RunBoot2 { .. } => NorChip { xip: true, ..self },
        }
    }

    /// The chip after all of `calls` in order.
    pub open spec fn after_all(self, calls: Seq<FlashCall>) -> NorChip
        decreases calls.len(),
    {
        if calls.len() == 0 {
            self
        } else {
            self.after(calls[0]).after_all(calls.drop_first())
        }
    }

    /// Each of `calls` finds the chip in a state that can take it.
    pub open spec fn admits_all(self, calls: Seq<FlashCall>) -> bool
        decreases calls.len(),
    {
        calls.len() == 0 || (self.admits(calls[0]) && self.after(calls[0]).admits_all(calls.drop_first()))
    }
}

/// The call sequence around an operation turns XIP off before the operation and
/// back on after it, and has no effect on the contents but the operation's own.
pub proof fn law_operation_is_bracketed(
    chip: NorChip,
    fns: crate::flash::FlashRomFns,
    copy_addr: usize,
    op: FlashCall,
)
    requires
        op is RangeErase || op is RangeProgram,
        (NorChip { connected: true, xip: false, ..chip }).admits(op),
    ensures
        chip.admits_all(crate::flash::operation(fns, copy_addr, op)),
        chip.after_all(crate::flash::operation(fns, copy_addr, op)) == (NorChip {
            bytes: chip.after(op).bytes,
            connected: true,
            xip: true,
        }),
{
    reveal_with_fuel(NorChip::after_all, 6);
    reveal_with_fuel(NorChip::admits_all, 6);
    let calls = crate::flash::operation(fns, copy_addr, op);
    let c1 = calls.drop_first();
    let c2 = c1.drop_first();
    let c3 = c2.drop_first();
    let c4 = c3.drop_first();
    assert(c4.drop_first().len() == 0);
    assert(c1[0] == calls[1] && c2[0] == calls[2] && c3[0] == calls[3] && c4[0] == calls[4]);
}

/// Erasing a sector leaves it all ones, and leaves every byte outside the
/// sector as it was.
pub proof fn law_sector_erase(chip: NorChip, fns: crate::flash::FlashRomFns, copy_addr: usize, offset: u32)
    requires
        offset % crate::flash::FLASH_SECTOR_SIZE == 0,
        offset + crate::flash::FLASH_SECTOR_SIZE <= chip.bytes.len(),
    ensures
        ({
            let calls = crate::flash::operation(fns, copy_addr, crate::flash::sector_erase(fns, offset));
            let done = chip.after_all(calls);
            &&& chip.admits_all(calls)
            &&& done.xip
            &&& done.bytes.len() == chip.bytes.len()
            &&& forall|i: int|
                0 <= i < chip.bytes.len() ==> #[trigger] done.bytes[i] == if i / 4096 == offset as int / 4096 {
                    0xFF
                } else {
                    chip.bytes[i]
                }
        }),
{
    law_operation_is_bracketed(chip, fns, copy_addr, crate::flash::sector_erase(fns, offset));
}

/// Data programmed into erased flash reads back as written, and no other byte
/// changes.
pub proof fn law_program_reads_back(
    chip: NorChip,
    fns: crate::flash::FlashRomFns,
    copy_addr: usize,
    offset: u32,
    data: &[u8],
)
    requires
        offset + data@.len() <= chip.bytes.len(),
        forall|i: int| offset <= i < offset + data@.len() ==> chip.bytes[i] == 0xFF,
    ensures
        ({
            let calls = crate::flash::operation(fns, copy_addr, crate::flash::page_program(fns, offset, data));
            let done = chip.after_all(calls);
            &&& chip.admits_all(calls)
            &&& done.xip
            &&& done.bytes.len() == chip.bytes.len()
            &&& done.bytes.subrange(offset as int, offset + data@.len()) == data@
            &&& forall|i: int|
                0 <= i < chip.bytes.len() && !(offset <= i < offset + data@.len()) ==> #[trigger] done.bytes[i]
                    == chip.bytes[i]
        }),
{
    law_operation_is_bracketed(chip, fns, copy_addr, crate::flash::page_program(fns, offset, data));
    let done = chip.after_all(crate::flash::operation(fns, copy_addr, crate::flash::page_program(fns, offset, data)));
    assert forall|k: int| 0 <= k < data@.len() implies done.bytes[offset + k] == data@[k] by {
        let b: u8 = data@[k];
        assert(0xFFu8 & b == b) by (bit_vector);
    }
    assert(done.bytes.subrange(offset as int, offset + data@.len()) =~= data@);
}

impl NorChip {
    /// The chip after the core jumped where `call` says. What happens is decided by
    /// the address alone: by which ROM routine lies there, or whether boot2's copy
    /// does. Nothing is known where no such code lies, where the arguments are not
    /// those that the routine takes, or where flash cannot be written.
    pub open spec fn after_jump(
        self,
        fns: crate::flash::FlashRomFns,
        copy_addr: usize,
        call: FlashCall,
    ) -> Option<NorChip> {
        let entry = crate::flash::entry_of(call);
        if entry == fns.connect_internal_flash {
            Some(NorChip { connected: true, ..self })
        } else if entry == fns.flash_exit_xip {
            Some(NorChip { xip: false, ..self })
        } else if entry == fns.flash_range_erase {
            match call {
                FlashCall::RangeErase { offset, count, .. } if self.admits(call) => Some(
                    NorChip { bytes: erased(self.bytes, offset as int, count as int), ..self },
                ),
                _ => None,
            }
        } else if entry == fns.flash_range_program {
            match call {
                FlashCall::RangeProgram { offset, data, .. } if self.admits(call) => Some(
                    NorChip { bytes: programmed(self.bytes, offset as int, data@), ..self },
                ),
                _ => None,
            }
        } else if entry == fns.flash_flush_cache {
            Some(self)
        } else if entry % 2 == 1 && entry / 2 == copy_addr / 2 {
            Some(NorChip { xip: true, ..self })
        } else {
            None
        }
    }

    /// The chip after all the jumps of `calls`.
    pub open spec fn after_jumps(
        self,
        fns: crate::flash::FlashRomFns,
        copy_addr: usize,
        calls: Seq<FlashCall>,
    ) -> Option<NorChip>
        decreases calls.len(),
    {
        if calls.len() == 0 {
            Some(self)
        } else {
            match self.after_jump(fns, copy_addr, calls[0]) {
                Some(next) => next.after_jumps(fns, copy_addr, calls.drop_first()),
                None => None,
            }
        }
    }
}

/// Boot2's copy lies in RAM, away from the ROM routines.
pub open spec fn copy_is_apart(fns: crate::flash::FlashRomFns, copy_addr: usize) -> bool {
    !fns.addresses().contains(copy_addr | 1)
}

/// With the routines accepted, making the erase calls on a chip that goes by
/// addresses alone erases the sector, changes no other byte, and ends with XIP on.
pub proof fn law_erase_jumps_erase_the_sector(
    chip: NorChip,
    fns: crate::flash::FlashRomFns,
    boot2: crate::flash::Boot2Copy,
    copy_addr: usize,
    offset: u32,
    calls: [FlashCall; 5],
)
    requires
        call_ensures(crate::flash::FlashRomFns::all_resolved_and_distinct, (&fns,), true),
        call_ensures(crate::flash::erase_sector_from_ram, (&fns, &boot2, copy_addr, offset), calls),
        copy_is_apart(fns, copy_addr),
        offset + 4096 <= chip.bytes.len(),
    ensures
        chip.after_jumps(fns, copy_addr, calls@) matches Some(done) && {
            &&& done.xip
            &&& done.bytes.len() == chip.bytes.len()
            &&& forall|i: int|
                0 <= i < chip.bytes.len() ==> #[trigger] done.bytes[i] == if offset <= i < offset + 4096 {
                    0xFF
                } else {
                    chip.bytes[i]
                }
        },
{
    crate::flash::law_erase_calls_jump_to_their_own_routines(fns, boot2, copy_addr, offset, calls);
    lemma_five_jumps(chip, fns, copy_addr, calls@);
}

/// With the routines accepted, making the program calls on a chip that goes by
/// addresses alone leaves `data` where flash was erased, changes no other byte, and
/// ends with XIP on.
pub proof fn law_program_jumps_program_the_data(
    chip: NorChip,
    fns: crate::flash::FlashRomFns,
    boot2: crate::flash::Boot2Copy,
    copy_addr: usize,
    offset: u32,
    data: &[u8],
    calls: [FlashCall; 5],
)
    requires
        call_ensures(crate::flash::FlashRomFns::all_resolved_and_distinct, (&fns,), true),
        call_ensures(crate::flash::program_from_ram, (&fns, &boot2, copy_addr, offset, data), calls),
        copy_is_apart(fns, copy_addr),
        offset + data@.len() <= chip.bytes.len(),
        forall|i: int| offset <= i < offset + data@.len() ==> chip.bytes[i] == 0xFF,
    ensures
        chip.after_jumps(fns, copy_addr, calls@) matches Some(done) && {
            &&& done.xip
            &&& done.bytes.len() == chip.bytes.len()
            &&& forall|i: int|
                0 <= i < chip.bytes.len() ==> #[trigger] done.bytes[i] == if offset <= i < offset + data@.len() {
                    data@[i - offset]
                } else {
                    chip.bytes[i]
                }
        },
{
    crate::flash::law_program_calls_jump_to_their_own_routines(fns, boot2, copy_addr, offset, data, calls);
    lemma_five_jumps(chip, fns, copy_addr, calls@);
    let done = chip.after_jumps(fns, copy_addr, calls@)->0;
    assert forall|i: int| 0 <= i < chip.bytes.len() implies #[trigger] done.bytes[i] == if offset <= i < offset
        + data@.len() {
        data@[i - offset]
    } else {
        chip.bytes[i]
    } by {
        if offset <= i < offset + data@.len() {
            let b: u8 = data@[i - offset];
            assert(0xFFu8 & b == b) by (bit_vector);
        }
    }
}

/// Five calls to their own routines bracket the third with XIP off.
proof fn lemma_five_jumps(chip: NorChip, fns: crate::flash::FlashRomFns, copy_addr: usize, calls: Seq<FlashCall>)
    requires
        fns.resolved(),
        copy_is_apart(fns, copy_addr),
        calls.len() == 5,
        calls[0] matches FlashCall::ConnectInternalFlash { entry } && entry == fns.connect_internal_flash,
        calls[1] matches FlashCall::ExitXip { entry } && entry == fns.flash_exit_xip,
        calls[2] is RangeErase || calls[2] is RangeProgram,
        calls[2] is RangeErase ==> crate::flash::entry_of(calls[2]) == fns.flash_range_erase,
        calls[2] is RangeProgram ==> crate::flash::entry_of(calls[2]) == fns.flash_range_program,
        (NorChip { connected: true, xip: false, ..chip }).admits(calls[2]),
        calls[3] matches FlashCall::FlushCache { entry } && entry == fns.flash_flush_cache,
        calls[4] == (FlashCall::RunBoot2 { entry: copy_addr | 1 }),
    ensures
        chip.after_jumps(fns, copy_addr, calls) == Some(
            NorChip { bytes: chip.after(calls[2]).bytes, connected: true, xip: true },
        ),
{
    reveal_with_fuel(NorChip::after_jumps, 6);
    let a = fns.addresses();
    assert(a[0] == fns.connect_internal_flash && a[1] == fns.flash_exit_xip && a[2] == fns.flash_range_erase);
    assert(a[3] == fns.flash_range_program && a[4] == fns.flash_flush_cache);
    assert((copy_addr | 1) % 2 == 1 && (copy_addr | 1) / 2 == copy_addr / 2) by (bit_vector);
    let c1 = calls.drop_first();
    let c2 = c1.drop_first();
    let c3 = c2.drop_first();
    let c4 = c3.drop_first();
    assert(c4.drop_first().len() == 0);
    assert(c1[0] == calls[1] && c2[0] == calls[2] && c3[0] == calls[3] && c4[0] == calls[4]);
}

} // verus!
