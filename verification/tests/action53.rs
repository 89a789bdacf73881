use krankulator_core::mapper::action53::{Action53Mapper, PRG_16K};


fn make_bank(fill: u8) -> [u8; PRG_16K] {
    [fill; PRG_16K]
}

fn write_reg(m: &mut Action53Mapper, reg: u8, value: u8) {
    m.cpu_write(0x5000, reg);
    m.cpu_write(0x8000, value);
}

#[test]
fn test_32k_switching_mode() {
    let mut banks = Vec::new();
    for i in 0..8u8 {
        banks.push(make_bank(i));
    }

    let mut m = Action53Mapper::new(0, banks);

    // Set mode: 32K switching (mode 0), 256K outer size, vertical mirroring
    write_reg(&mut m, 0x80, 0b0011_0010);
    // Set outer bank 0
    write_reg(&mut m, 0x81, 0x00);
    // Set inner bank 0
    write_reg(&mut m, 0x01, 0x00);
    assert_eq!(m.cpu_read(0x8000), 0);
    assert_eq!(m.cpu_read(0xC000), 1);

    // Switch to inner bank 1
    write_reg(&mut m, 0x01, 0x01);
    assert_eq!(m.cpu_read(0x8000), 2);
    assert_eq!(m.cpu_read(0xC000), 3);
}

#[test]
fn test_unrom_style_mode3() {
    let mut banks = Vec::new();
    for i in 0..4u8 {
        banks.push(make_bank(i * 10));
    }

    let mut m = Action53Mapper::new(0, banks);

    // Mode 3 (UNROM #2 style): switchable $8000, fixed $C000
    // outer size = 0 (32K window), so inner has 1 bit
    write_reg(&mut m, 0x80, 0b0000_1110);
    write_reg(&mut m, 0x81, 0x00);
    write_reg(&mut m, 0x01, 0x00);
    assert_eq!(m.cpu_read(0x8000), 0);
    // Fixed bank = last within window
    assert_eq!(m.cpu_read(0xC000), 10);

    write_reg(&mut m, 0x01, 0x01);
    assert_eq!(m.cpu_read(0x8000), 10);
}

#[test]
fn action53_test_chr_ram_banking() {
    let mut m = Action53Mapper::new(0, vec![make_bank(0xFF)]);

    // Write to CHR bank 0
    m.ppu_write(0x0000, 0xAA);
    assert_eq!(m.ppu_read(0x0000), 0xAA);

    // Switch to CHR bank 1
    write_reg(&mut m, 0x00, 0x01);
    assert_eq!(m.ppu_read(0x0000), 0x00);
    m.ppu_write(0x0000, 0xBB);

    // Switch back to CHR bank 0
    write_reg(&mut m, 0x00, 0x00);
    assert_eq!(m.ppu_read(0x0000), 0xAA);
}

#[test]
fn action53_test_mirroring_modes() {
    let mut m = Action53Mapper::new(0, vec![make_bank(0xFF)]);

    // Mode bits 1-0 = 2 => vertical
    write_reg(&mut m, 0x80, 0x02);
    m.ppu_write(0x2000, 0x42);
    assert_eq!(m.ppu_read(0x2800), 0x42);

    // Mode bits 1-0 = 3 => horizontal
    write_reg(&mut m, 0x80, 0x03);
    m.ppu_write(0x2000, 0x55);
    assert_eq!(m.ppu_read(0x2400), 0x55);
}

#[test]
fn test_register_select() {
    let mut m = Action53Mapper::new(0, vec![make_bank(0xFF)]);

    // Select register $00 (CHR), write value
    m.cpu_write(0x5000, 0x00);
    m.cpu_write(0x8000, 0x02);

    // CHR bank should be 2
    m.ppu_write(0x0000, 0x42);
    assert_eq!(m.ppu_read(0x0000), 0x42);

    // Switch to CHR bank 0 to verify bank 2 is separate
    m.cpu_write(0x5000, 0x00);
    m.cpu_write(0x8000, 0x00);
    assert_ne!(m.ppu_read(0x0000), 0x42);
}

