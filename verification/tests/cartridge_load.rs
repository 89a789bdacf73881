use krankulator_core::cartridge::{image_loadable, load_nes_from_bytes, load_nes_from_bytes_with_sram, Cartridge};
use krankulator_core::listing::{decode_listing, decode_listing_line};
use krankulator_core::loader::{
    combine_prg_banks_32k, parse_header, rom_has_battery, LoadError, CHR_BANK_SIZE, INES_HEADER_SIZE, PRG_BANK_SIZE,
};

fn image(mapper_id: u8, prg_blocks: u8, chr_blocks: u8) -> Vec<u8> {
    let mut bytes = vec![0; INES_HEADER_SIZE];
    bytes[0..4].copy_from_slice(b"NES\x1A");
    bytes[4] = prg_blocks;
    bytes[5] = chr_blocks;
    bytes[6] = (mapper_id & 0x0F) << 4;
    bytes[7] = mapper_id & 0xF0;
    for b in 0..prg_blocks as usize {
        let mut bank = vec![0u8; PRG_BANK_SIZE];
        bank[0] = b as u8;
        bank[PRG_BANK_SIZE - 4] = 0x34;
        bank[PRG_BANK_SIZE - 3] = 0x12;
        bytes.extend(bank);
    }
    bytes.extend(std::iter::repeat(0).take(chr_blocks as usize * CHR_BANK_SIZE));
    bytes
}

#[test]
fn header_fields_from_flags() {
    let mut bytes = image(0x42, 2, 1);
    bytes[6] |= 0x02;
    let h = parse_header(&bytes).unwrap();
    assert_eq!(h.mapper_id, 0x42);
    assert!(h.has_battery);
    assert!(!h.is_nes2);
    assert_eq!(h.prg_offset, 16);
    assert_eq!(h.chr_offset, 16 + 2 * PRG_BANK_SIZE);
    assert_eq!(h.chr_ram_size, 8192);
}

#[test]
fn header_with_trainer_and_nes2_fields() {
    let mut bytes = image(0x22, 1, 0);
    bytes[6] |= 0x04;
    bytes[7] |= 0x08;
    bytes[8] = 0x31;
    bytes[11] = 0x07;
    let h = parse_header(&bytes).unwrap();
    assert!(h.is_nes2);
    assert_eq!(h.mapper_id, 0x122);
    assert_eq!(h.submapper, 3);
    assert_eq!(h.prg_offset, 16 + 512);
    assert_eq!(h.chr_ram_size, 64 << 7);
}

#[test]
fn header_errors() {
    assert_eq!(parse_header(&[0x4E, 0x45, 0x53]).unwrap_err(), LoadError::TooSmall);
    let mut bytes = image(2, 1, 0);
    bytes[3] = 0;
    assert_eq!(parse_header(&bytes).unwrap_err(), LoadError::BadMagic);
}

#[test]
fn battery_flag() {
    assert!(!rom_has_battery(&[0; 6]));
    let mut bytes = image(2, 1, 0);
    assert!(!rom_has_battery(&bytes));
    bytes[6] |= 0x02;
    assert!(rom_has_battery(&bytes));
}

#[test]
fn mapper_from_upper_nibble_of_flags7() {
    let bytes = image(34, 2, 0);
    let cart = load_nes_from_bytes(&bytes).unwrap();
    assert_eq!(cart.mapper_id(), 34);
    let bytes = image(206, 2, 1);
    let cart = load_nes_from_bytes(&bytes).unwrap();
    assert_eq!(cart.mapper_id(), 206);
}

#[test]
fn unsupported_mapper_is_refused() {
    let bytes = image(1, 2, 1);
    assert!(image_loadable(&bytes));
    match load_nes_from_bytes(&bytes) {
        Err(e) => assert_eq!(e, LoadError::UnsupportedMapper(1)),
        Ok(_) => panic!("mapper 1 is not built"),
    }
}

#[test]
fn test_load_ines_mapper_uses_flags7_upper_nibble() {
    let gxrom = load_nes_from_bytes(&image(66, 2, 1));
    assert_eq!(gxrom.unwrap().mapper_id(), 66);
    let bnrom = load_nes_from_bytes(&image(34, 2, 0));
    assert_eq!(bnrom.unwrap().mapper_id(), 34);
}

#[test]
fn bnrom_only_for_known_submappers() {
    let mut bytes = image(34, 2, 0);
    bytes[7] |= 0x08;
    bytes[8] = 0x10;
    match load_nes_from_bytes(&bytes) {
        Err(e) => assert_eq!(e, LoadError::UnsupportedSubmapper(34, 1)),
        Ok(_) => panic!("submapper 1 is not BNROM"),
    }
    bytes[8] = 0x20;
    assert!(load_nes_from_bytes(&bytes).is_ok());
}

#[test]
fn truncated_image_is_not_loadable() {
    let mut bytes = image(2, 2, 0);
    bytes.truncate(INES_HEADER_SIZE + PRG_BANK_SIZE);
    assert!(!image_loadable(&bytes));
    let bytes = image(2, 0, 0);
    assert!(!image_loadable(&bytes));
}

#[test]
fn uxrom_from_image_reads_its_banks() {
    let bytes = image(2, 4, 0);
    match load_nes_from_bytes(&bytes).unwrap() {
        Cartridge::UxRom(m) => {
            assert_eq!(m.cpu_read(0x8000), 0);
            assert_eq!(m.cpu_read(0xC000), 3);
            assert_eq!(m.code_start(), 0x1234);
        }
        _ => panic!("mapper 2 is UxROM"),
    }
}

#[test]
fn sram_reaches_the_board() {
    let mut bytes = image(10, 2, 1);
    bytes[6] |= 0x02;
    match load_nes_from_bytes_with_sram(&bytes, Some(vec![0x5A; 16])).unwrap() {
        Cartridge::Mmc4(m) => {
            assert_eq!(m.cpu_read(0x6000), 0x5A);
            assert_eq!(m.sram_data().unwrap()[15], 0x5A);
        }
        _ => panic!("mapper 10 is MMC4"),
    }
}

#[test]
fn odd_prg_bank_pairs_with_itself() {
    let a = [1u8; 16384];
    let b = [2u8; 16384];
    let c = [3u8; 16384];
    let banks = combine_prg_banks_32k(&vec![a, b, c]);
    assert_eq!(banks.len(), 2);
    assert_eq!(banks[0][0], 1);
    assert_eq!(banks[0][16384], 2);
    assert_eq!(banks[1][0], 3);
    assert_eq!(banks[1][16384], 3);
}

#[test]
fn listing_line_decodes_tokens() {
    assert_eq!(decode_listing_line("  a9 01 8D 00 02 ; store").unwrap(), vec![0xA9, 0x01, 0x8D, 0x00, 0x02]);
    assert_eq!(decode_listing_line("; only a comment").unwrap(), Vec::<u8>::new());
    assert_eq!(decode_listing_line("a9  01").unwrap(), vec![0xA9, 0x01]);
    assert_eq!(decode_listing_line("a9ff").unwrap(), vec![0xA9, 0xFF]);
}

#[test]
fn listing_line_rejects_bad_hex() {
    assert_eq!(decode_listing_line("a9 1").unwrap_err(), LoadError::InvalidHex);
    assert_eq!(decode_listing_line("zz").unwrap_err(), LoadError::InvalidHex);
}

#[test]
fn listing_concatenates_lines() {
    let lines = vec!["a2 08".to_string(), "".to_string(), "ca ; dex".to_string()];
    assert_eq!(decode_listing(&lines).unwrap(), vec![0xA2, 0x08, 0xCA]);
    let bad = vec!["a2 08".to_string(), "q".to_string()];
    assert_eq!(decode_listing(&bad).unwrap_err(), LoadError::InvalidHex);
}

#[test]
fn listing_line_trims_unicode_white_space() {
    assert_eq!(decode_listing_line("\u{a0}\u{2003} a9 01\u{3000}\t").unwrap(), vec![0xA9, 0x01]);
    assert_eq!(decode_listing_line("\u{85}ea ; nop").unwrap(), vec![0xEA]);
    assert_eq!(decode_listing_line("\u{3000}"), Ok(vec![]));
}
