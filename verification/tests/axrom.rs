use krankulator_core::mapper::axrom::{AxROMMapper, AXROM_PRG_BANK_SIZE};


#[test]
fn test_axrom_prg_bank_switching() {
    let bank1 = [1; AXROM_PRG_BANK_SIZE];
    let bank2 = [2; AXROM_PRG_BANK_SIZE];
    let bank3 = [3; AXROM_PRG_BANK_SIZE];

    let mut mapper = AxROMMapper::new(0, vec![bank1, bank2, bank3], 0);

    // Initially bank 0 should be selected
    assert_eq!(mapper.cpu_read(0x8000), 1);
    assert_eq!(mapper.cpu_read(0xFFFF), 1);

    // Switch to bank 1
    mapper.cpu_write(0x8000, 1);
    assert_eq!(mapper.cpu_read(0x8000), 2);

    // Switch to bank 2
    mapper.cpu_write(0x8000, 2);
    assert_eq!(mapper.cpu_read(0x8000), 3);

    // Test wrapping - bank 3 should wrap to bank 0
    mapper.cpu_write(0x8000, 3);
    assert_eq!(mapper.cpu_read(0x8000), 1);
}

#[test]
fn test_axrom_single_screen_mirroring() {
    let bank1 = [0; AXROM_PRG_BANK_SIZE];
    let mut mapper = AxROMMapper::new(0, vec![bank1], 0);

    // Write to nametable $2000
    mapper.ppu_write(0x2000, 0x42);

    // With single-screen mirroring, all nametable addresses should map to the same location
    assert_eq!(mapper.ppu_read(0x2000), 0x42);
    assert_eq!(mapper.ppu_read(0x2400), 0x42); // different nametable
    assert_eq!(mapper.ppu_read(0x2800), 0x42); // different nametable
    assert_eq!(mapper.ppu_read(0x2C00), 0x42); // different nametable

    // Switch to the other single-screen page
    mapper.cpu_write(0x8000, 0x10); // set bit 4 to switch page

    // Now the same addresses should read different values (new page)
    assert_ne!(mapper.ppu_read(0x2000), 0x42);

    // Write to the new page
    mapper.ppu_write(0x2000, 0x84);
    assert_eq!(mapper.ppu_read(0x2000), 0x84);
    assert_eq!(mapper.ppu_read(0x2400), 0x84);
    assert_eq!(mapper.ppu_read(0x2800), 0x84);
    assert_eq!(mapper.ppu_read(0x2C00), 0x84);

    // Switch back to page 0
    mapper.cpu_write(0x8000, 0x00);
    assert_eq!(mapper.ppu_read(0x2000), 0x42);
}

#[test]
fn test_axrom_chr_ram_write() {
    let bank1 = [0; AXROM_PRG_BANK_SIZE];
    let mut mapper = AxROMMapper::new(0, vec![bank1], 0);

    mapper.ppu_write(0x0100, 0x55);
    assert_eq!(mapper.ppu_read(0x0100), 0x55);

    mapper.ppu_write(0x1FFF, 0xAA);
    assert_eq!(mapper.ppu_read(0x1FFF), 0xAA);
}

#[test]
fn test_axrom_combined_bank_and_mirroring() {
    let bank1 = [1; AXROM_PRG_BANK_SIZE];
    let bank2 = [2; AXROM_PRG_BANK_SIZE];

    let mut mapper = AxROMMapper::new(0, vec![bank1, bank2], 0);

    // 0x11 = PRG bank 1, single-screen page 1
    mapper.cpu_write(0x8000, 0x11);
    assert_eq!(mapper.cpu_read(0x8000), 2);

    mapper.ppu_write(0x2000, 0x33);
    assert_eq!(mapper.ppu_read(0x2400), 0x33);

    // 0x00 = PRG bank 0, single-screen page 0
    mapper.cpu_write(0x8000, 0x00);
    assert_eq!(mapper.cpu_read(0x8000), 1);
    assert_ne!(mapper.ppu_read(0x2000), 0x33);
}

#[test]
fn test_axrom_4bit_bank_select() {
    let banks: Vec<[u8; AXROM_PRG_BANK_SIZE]> =
        (0u8..16).map(|i| [i; AXROM_PRG_BANK_SIZE]).collect();

    let mut mapper = AxROMMapper::new(0, banks, 0);

    mapper.cpu_write(0x8000, 0x08);
    assert_eq!(mapper.cpu_read(0x8000), 8);

    mapper.cpu_write(0x8000, 0x0F);
    assert_eq!(mapper.cpu_read(0x8000), 15);
}

#[test]
fn test_axrom_bus_conflicts_submapper_2() {
    let mut bank = [0xFF_u8; AXROM_PRG_BANK_SIZE];
    bank[0] = 0x03;
    let bank1 = [1; AXROM_PRG_BANK_SIZE];

    let mut mapper = AxROMMapper::new(0, vec![bank, bank1], 2);

    // Write 0x01 to $8000 where ROM byte is 0x03: AND = 0x01 -> bank 1
    mapper.cpu_write(0x8000, 0x01);
    assert_eq!(mapper.cpu_read(0x8000), 1);

    // Switch back to bank 0
    mapper.cpu_write(0x8000, 0x00);
    // Write 0x01 to $8000 where ROM byte is 0x03: AND = 0x01 -> bank 1
    mapper.cpu_write(0x8000, 0x05);
    assert_eq!(mapper.cpu_read(0x8000), 1); // 0x05 & 0x03 = 0x01
}

#[test]
fn test_axrom_no_bus_conflicts_submapper_0() {
    let mut bank = [0x00_u8; AXROM_PRG_BANK_SIZE];
    bank[0] = 0x00;
    let bank1 = [1; AXROM_PRG_BANK_SIZE];

    let mut mapper = AxROMMapper::new(0, vec![bank, bank1], 0);

    // Without bus conflicts, ROM byte doesn't matter
    mapper.cpu_write(0x8000, 0x01);
    assert_eq!(mapper.cpu_read(0x8000), 1);
}

