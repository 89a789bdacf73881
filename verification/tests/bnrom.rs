use krankulator_core::mapper::bnrom::{BNROMMapper, BNROM_PRG_BANK_SIZE};


fn make_bank(fill: u8) -> [u8; BNROM_PRG_BANK_SIZE] {
    [fill; BNROM_PRG_BANK_SIZE]
}

fn make_bank_with_lut(bank_index: u8, fill: u8) -> [u8; BNROM_PRG_BANK_SIZE] {
    let mut bank = [fill; BNROM_PRG_BANK_SIZE];
    bank[0] = bank_index;
    bank[BNROM_PRG_BANK_SIZE - 1] = bank_index;
    bank
}

#[test]
fn test_bnrom_prg_bank_switching() {
    let mut mapper = (BNROMMapper::new(
        0,
        vec![
            make_bank_with_lut(0, 0xFF),
            make_bank_with_lut(1, 0xFF),
            make_bank_with_lut(2, 0xFF),
            make_bank_with_lut(3, 0xFF),
        ],
    ));

    assert_eq!(mapper.cpu_read(0x8001), 0xFF);

    mapper.cpu_write(0x8001, 0x01);
    assert_eq!(mapper.cpu_read(0x8001), 0xFF);

    mapper.cpu_write(0x8001, 0x02);
    assert_eq!(mapper.cpu_read(0x8001), 0xFF);

    mapper.cpu_write(0x8001, 0x03);
    assert_eq!(mapper.cpu_read(0x8001), 0xFF);

    assert_eq!(mapper.cpu_read(0x8000), 3);
}

#[test]
fn test_bnrom_full_byte_bank_select() {
    let mut banks = Vec::new();
    for i in 0..8 {
        banks.push(make_bank(0xFF ^ i));
    }

    let mut mapper = BNROMMapper::new(0, banks);

    mapper.cpu_write(0x8000, 5);
    assert_eq!(mapper.cpu_read(0x8000), 0xFF ^ 5);

    // 7 & 0xFA (rom at $8000 in bank 5) = 2
    mapper.cpu_write(0x8000, 7);
    assert_eq!(mapper.cpu_read(0x8000), 0xFF ^ 2);
}

#[test]
fn test_bnrom_bus_conflict_ands_with_rom() {
    let mut mapper = BNROMMapper::new(0, vec![make_bank(0x01), make_bank(0xFF)]);

    // 0x03 & 0x01 = 0x01
    mapper.cpu_write(0x8000, 0x03);
    assert_eq!(mapper.cpu_read(0x8000), 0xFF);

    // 0x00 & 0xFF = 0x00
    mapper.cpu_write(0x8000, 0x00);
    assert_eq!(mapper.cpu_read(0x8000), 0x01);
}

#[test]
fn test_bnrom_bank_wraps_modulo_num_banks() {
    let mut mapper = BNROMMapper::new(0, vec![make_bank(0xFF), make_bank(0xAA)]);

    // Bank 2 should wrap to bank 0 with 2 banks
    mapper.cpu_write(0x8000, 0x02);
    assert_eq!(mapper.cpu_read(0x8000), 0xFF);

    // Bank 3 should wrap to bank 1
    mapper.cpu_write(0x8000, 0x03);
    assert_eq!(mapper.cpu_read(0x8000), 0xAA);
}

#[test]
fn test_bnrom_chr_ram_read_write() {
    let mut mapper = BNROMMapper::new(0, vec![make_bank(0)]);

    mapper.ppu_write(0x0100, 0x42);
    assert_eq!(mapper.ppu_read(0x0100), 0x42);

    mapper.ppu_write(0x1FFF, 0x84);
    assert_eq!(mapper.ppu_read(0x1FFF), 0x84);
}

#[test]
fn test_bnrom_nametable_mirroring_horizontal() {
    let mut mapper = BNROMMapper::new(0, vec![make_bank(0)]);

    mapper.ppu_write(0x2000, 0x11);
    // Horizontal: $2000 = $2400
    assert_eq!(mapper.ppu_read(0x2400), 0x11);
    // $2800 is a different nametable
    assert_ne!(mapper.ppu_read(0x2800), 0x11);
}

#[test]
fn test_bnrom_nametable_mirroring_vertical() {
    let mut mapper = BNROMMapper::new(1, vec![make_bank(0)]);

    mapper.ppu_write(0x2000, 0x22);
    // Vertical: $2000 = $2800
    assert_eq!(mapper.ppu_read(0x2800), 0x22);
    // $2400 is a different nametable
    assert_ne!(mapper.ppu_read(0x2400), 0x22);
}

#[test]
fn test_bnrom_palette_mirroring() {
    let mut mapper = BNROMMapper::new(0, vec![make_bank(0)]);

    // $3F10 mirrors to $3F00
    mapper.ppu_write(0x3F10, 0x30);
    assert_eq!(mapper.ppu_read(0x3F00), 0x30);

    mapper.ppu_write(0x3F04, 0x15);
    assert_eq!(mapper.ppu_read(0x3F04), 0x15);
}

