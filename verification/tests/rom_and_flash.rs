use pico_lockstep::flash::{
    boot2_word_addr, enable_xip_via_boot2_ram, erase_sector_from_ram, init_boot2_ram_copy, program_from_ram,
    Boot2Copy, FlashCall, FlashRomFns, BOOT2_SIZE_WORDS, FLASH_PAGE_SIZE, FLASH_SECTOR_SIZE,
};
use pico_lockstep::bytes::{read_le16, read_le32};
use pico_lockstep::rom::{rom_func_lookup, rom_table_code, rom_table_lookup_fn, rom_version, LookupCall};

fn rom(version: u8) -> [u8; 0x1c] {
    let mut rom = [0u8; 0x1c];
    rom[0x13] = version;
    rom[0x16] = 0x34;
    rom[0x17] = 0x12;
    rom[0x18] = 0x78;
    rom[0x19] = 0x56;
    rom[0x1a] = 0xbc;
    rom[0x1b] = 0x9a;
    rom
}

fn fns() -> FlashRomFns {
    FlashRomFns::lookup(&[0x101, 0x203, 0x305, 0x407, 0x509, 0x60b])
}

fn valid_copy() -> Boot2Copy {
    let mut copy = Boot2Copy::new();
    init_boot2_ram_copy(&mut copy, &[7u32; BOOT2_SIZE_WORDS]);
    copy
}

#[test]
fn version_byte_is_at_0x13() {
    assert_eq!(rom_version(&rom(1)), 1);
    assert_eq!(rom_version(&rom(2)), 2);
}

#[test]
fn revision_selects_lookup_slot() {
    assert_eq!(rom_table_lookup_fn(&rom(1)), 0x9abc_5678);
    assert_eq!(rom_table_lookup_fn(&rom(2)), 0x1234);
    assert_eq!(rom_table_lookup_fn(&rom(0)), 0x1234);
    let mut other = rom(2);
    other[0x19] = 0xff;
    assert_eq!(rom_table_lookup_fn(&other), 0x1234);
}

#[test]
fn table_code_packs_first_character_low() {
    assert_eq!(rom_table_code(b'I', b'F'), 0x4649);
    assert_eq!(rom_table_code(0xff, 0xff), 0xffff);
    assert_ne!(rom_table_code(b'R', b'E'), rom_table_code(b'E', b'R'));
}

#[test]
fn lookup_call_carries_secure_mask() {
    assert_eq!(rom_func_lookup(&rom(2), b'R', b'P'), LookupCall { entry: 0x1234, code: 0x5052, mask: 4 });
}

#[test]
fn lookup_asks_for_six_codes_in_field_order() {
    let calls = FlashRomFns::lookup_calls(&rom(2));
    let codes: Vec<u32> = calls.iter().map(|c| c.code).collect();
    assert_eq!(codes, vec![0x4649, 0x5845, 0x4552, 0x5052, 0x4346, 0x5843]);
    for call in calls {
        assert_eq!(call.entry, 0x1234);
        assert_eq!(call.mask, 4);
    }
    let found = calls.map(|c| c.code as usize);
    let fns = FlashRomFns::lookup(&found);
    assert_eq!(fns.connect_internal_flash, 0x4649);
    assert_eq!(fns.flash_exit_xip, 0x5845);
    assert_eq!(fns.flash_range_erase, 0x4552);
    assert_eq!(fns.flash_range_program, 0x5052);
    assert_eq!(fns.flash_flush_cache, 0x4346);
    assert_eq!(fns.flash_enter_cmd_xip, 0x5843);
}

#[test]
fn resolved_and_distinct_is_accepted() {
    assert!(fns().all_resolved_and_distinct());
}

#[test]
fn any_missing_routine_is_rejected() {
    for i in 0..6 {
        let mut found = [1usize, 2, 3, 4, 5, 6];
        found[i] = 0;
        assert!(!FlashRomFns::lookup(&found).all_resolved_and_distinct());
    }
}

#[test]
fn any_shared_address_is_rejected() {
    for i in 0..6 {
        for j in (i + 1)..6 {
            let mut found = [1usize, 2, 3, 4, 5, 6];
            found[j] = found[i];
            assert!(!FlashRomFns::lookup(&found).all_resolved_and_distinct());
        }
    }
}

#[test]
fn boot2_is_copied_once() {
    let mut copy = Boot2Copy::new();
    assert!(!copy.valid);
    assert_eq!(copy.words, [0u32; BOOT2_SIZE_WORDS]);
    let mut first = [0u32; BOOT2_SIZE_WORDS];
    for (i, w) in first.iter_mut().enumerate() {
        *w = 1000 + i as u32;
    }
    init_boot2_ram_copy(&mut copy, &first);
    assert!(copy.valid);
    assert_eq!(copy.words, first);
    init_boot2_ram_copy(&mut copy, &[9u32; BOOT2_SIZE_WORDS]);
    assert!(copy.valid);
    assert_eq!(copy.words, first);
}

#[test]
fn boot2_words_are_read_from_boot_ram() {
    assert_eq!(boot2_word_addr(0), 0x400e_0000);
    assert_eq!(boot2_word_addr(63), 0x400e_00fc);
}

#[test]
fn boot2_entry_has_thumb_bit() {
    assert_eq!(enable_xip_via_boot2_ram(0x2000_0100), FlashCall::RunBoot2 { entry: 0x2000_0101 });
    assert_eq!(enable_xip_via_boot2_ram(0x2000_0101), FlashCall::RunBoot2 { entry: 0x2000_0101 });
}

#[test]
fn erase_runs_five_calls_in_order() {
    let calls = erase_sector_from_ram(&fns(), &valid_copy(), 0x2000_0000, 0x20_0000);
    assert_eq!(
        calls,
        [
            FlashCall::ConnectInternalFlash { entry: 0x101 },
            FlashCall::ExitXip { entry: 0x203 },
            FlashCall::RangeErase {
                entry: 0x305,
                offset: 0x20_0000,
                count: 4096,
                block_size: FLASH_SECTOR_SIZE,
                block_cmd: 0x20,
            },
            FlashCall::FlushCache { entry: 0x509 },
            FlashCall::RunBoot2 { entry: 0x2000_0001 },
        ]
    );
}

#[test]
fn program_runs_five_calls_in_order() {
    let data = [0xa5u8; 2 * FLASH_PAGE_SIZE];
    let calls = program_from_ram(&fns(), &valid_copy(), 0x2000_0000, 0x20_0100, &data);
    assert_eq!(
        calls,
        [
            FlashCall::ConnectInternalFlash { entry: 0x101 },
            FlashCall::ExitXip { entry: 0x203 },
            FlashCall::RangeProgram { entry: 0x407, offset: 0x20_0100, data: &data },
            FlashCall::FlushCache { entry: 0x509 },
            FlashCall::RunBoot2 { entry: 0x2000_0001 },
        ]
    );
}

#[test]
fn little_endian_reads() {
    let bytes = [0xffu8, 0x01, 0x02, 0x83, 0x04];
    assert_eq!(read_le16(&bytes, 0), 0x01ff);
    assert_eq!(read_le16(&bytes, 3), 0x0483);
    assert_eq!(read_le32(&bytes, 0), 0x8302_01ff);
    assert_eq!(read_le32(&bytes, 1), 0x0483_0201);
}

/// A chip that refuses to be written while XIP is on.
struct Chip {
    bytes: Vec<u8>,
    connected: bool,
    xip: bool,
}

impl Chip {
    fn run(&mut self, calls: &[FlashCall]) {
        for call in calls {
            match *call {
                FlashCall::ConnectInternalFlash { .. } => self.connected = true,
                FlashCall::ExitXip { .. } => self.xip = false,
                FlashCall::RangeErase { offset, count, .. } => {
                    assert!(self.connected && !self.xip);
                    self.bytes[offset as usize..offset as usize + count].fill(0xff);
                }
                FlashCall::RangeProgram { offset, data, .. } => {
                    assert!(self.connected && !self.xip);
                    for (i, b) in data.iter().enumerate() {
                        self.bytes[offset as usize + i] &= *b;
                    }
                }
                FlashCall::FlushCache { .. } => {}
                FlashCall::RunBoot2 { .. } => self.xip = true,
            }
        }
    }
}

#[test]
fn programmed_data_reads_back_from_an_erased_sector() {
    let mut chip = Chip { bytes: vec![0x12; 3 * 4096], connected: false, xip: true };
    chip.run(&erase_sector_from_ram(&fns(), &valid_copy(), 0x2000_0000, 4096));
    assert!(chip.xip);
    assert!(chip.bytes[4096..8192].iter().all(|b| *b == 0xff));
    assert!(chip.bytes[..4096].iter().chain(&chip.bytes[8192..]).all(|b| *b == 0x12));
    let data: Vec<u8> = (0..512u32).map(|i| (i * 7) as u8).collect();
    chip.run(&program_from_ram(&fns(), &valid_copy(), 0x2000_0000, 4096 + 256, &data));
    assert!(chip.xip);
    assert_eq!(chip.bytes[4096 + 256..4096 + 768], data[..]);
    assert!(chip.bytes[4096..4096 + 256].iter().all(|b| *b == 0xff));
}

#[test]
fn lookup_is_repeatable_and_jumps_to_the_table_routine_only() {
    let table = |c: LookupCall| 0x4000 + 2 * c.code as usize + 1;
    let calls = FlashRomFns::lookup_calls(&rom(2));
    let fns = FlashRomFns::lookup(&calls.map(table));
    let again = FlashRomFns::lookup_calls(&rom(2));
    assert_eq!(calls, again);
    assert_eq!(FlashRomFns::lookup(&again.map(table)), fns);
    assert!(fns.all_resolved_and_distinct());
    for call in calls {
        assert_eq!(call.entry, rom_table_lookup_fn(&rom(2)));
    }
}
