use krankulator_core::mapper::unrom512::{Unrom512Mapper, PRG_BANK_SIZE};


fn make_bank(fill: u8) -> [u8; PRG_BANK_SIZE] {
    [fill; PRG_BANK_SIZE]
}

#[test]
fn unrom512_test_prg_bank_switching() {
    let mut m = (Unrom512Mapper::new(
        0,
        vec![
            make_bank(0x11),
            make_bank(0x22),
            make_bank(0x33),
            make_bank(0x44),
        ],
        1, // no bus conflicts
    ));

    assert_eq!(m.cpu_read(0x8000), 0x11);
    assert_eq!(m.cpu_read(0xC000), 0x44);

    m.cpu_write(0x8000, 0x01);
    assert_eq!(m.cpu_read(0x8000), 0x22);
    assert_eq!(m.cpu_read(0xC000), 0x44);
}

#[test]
fn unrom512_test_chr_ram_banking() {
    let mut m = Unrom512Mapper::new(0, vec![make_bank(0xFF)], 1);

    // Write to CHR bank 0
    m.ppu_write(0x0000, 0xAA);
    assert_eq!(m.ppu_read(0x0000), 0xAA);

    // Switch to CHR bank 1 (bits 5-6)
    m.cpu_write(0x8000, 0x20);
    assert_eq!(m.ppu_read(0x0000), 0x00);

    // Write to CHR bank 1
    m.ppu_write(0x0000, 0xBB);
    assert_eq!(m.ppu_read(0x0000), 0xBB);

    // Switch back to CHR bank 0
    m.cpu_write(0x8000, 0x00);
    assert_eq!(m.ppu_read(0x0000), 0xAA);
}

#[test]
fn test_1screen_mirroring() {
    let mut m = Unrom512Mapper::new(0, vec![make_bank(0xFF)], 1);

    // Default: 1-screen lower
    m.ppu_write(0x2000, 0x42);
    assert_eq!(m.ppu_read(0x2400), 0x42);
    assert_eq!(m.ppu_read(0x2800), 0x42);

    // Bit 7 set: 1-screen upper
    m.cpu_write(0x8000, 0x80);
    m.ppu_write(0x2400, 0x55);
    assert_eq!(m.ppu_read(0x2000), 0x55);
    assert_eq!(m.ppu_read(0x2800), 0x55);
}

#[test]
fn test_submapper3_hv_mirroring() {
    let mut m = (Unrom512Mapper::new(
        1, // vertical from header
        vec![make_bank(0xFF)],
        3,
    ));

    // Bit 7 clear => vertical
    m.cpu_write(0x8000, 0x00);
    m.ppu_write(0x2000, 0xAA);
    assert_eq!(m.ppu_read(0x2800), 0xAA);

    // Bit 7 set => horizontal
    m.cpu_write(0x8000, 0x80);
    m.ppu_write(0x2000, 0xBB);
    assert_eq!(m.ppu_read(0x2400), 0xBB);
}

#[test]
fn test_bus_conflicts_submapper0() {
    let mut m = (Unrom512Mapper::new(
        0,
        vec![make_bank(0x01), make_bank(0xFF)],
        0,
    ));

    // 0x03 & 0x01 = 0x01 => bank 1
    m.cpu_write(0x8000, 0x03);
    assert_eq!(m.cpu_read(0x8000), 0xFF);
}

#[test]
fn test_no_bus_conflicts_submapper1() {
    let mut m = (Unrom512Mapper::new(
        0,
        vec![make_bank(0x00), make_bank(0xFF)],
        1,
    ));

    // No bus conflicts: value written directly
    m.cpu_write(0x8000, 0x01);
    assert_eq!(m.cpu_read(0x8000), 0xFF);
}

