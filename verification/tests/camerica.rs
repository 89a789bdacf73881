use krankulator_core::mapper::camerica::{CamericaMapper, PRG_BANK_SIZE};


fn make_bank(fill: u8) -> [u8; PRG_BANK_SIZE] {
    [fill; PRG_BANK_SIZE]
}

#[test]
fn camerica_test_prg_bank_switching() {
    let mut m = (CamericaMapper::new(
        0,
        vec![
            make_bank(0x11),
            make_bank(0x22),
            make_bank(0x33),
            make_bank(0x44),
        ],
    ));

    assert_eq!(m.cpu_read(0x8000), 0x11);
    assert_eq!(m.cpu_read(0xC000), 0x44);

    m.cpu_write(0xC000, 1);
    assert_eq!(m.cpu_read(0x8000), 0x22);
    assert_eq!(m.cpu_read(0xC000), 0x44);

    m.cpu_write(0xC000, 2);
    assert_eq!(m.cpu_read(0x8000), 0x33);
}

#[test]
fn test_bank_register_at_c000_not_8000() {
    let mut m = (CamericaMapper::new(
        0,
        vec![make_bank(0x11), make_bank(0x22)],
    ));

    // Write to $8000 should NOT change PRG bank (it's the mirroring register)
    m.cpu_write(0x8000, 1);
    assert_eq!(m.cpu_read(0x8000), 0x11);

    // Write to $C000 changes PRG bank
    m.cpu_write(0xC000, 1);
    assert_eq!(m.cpu_read(0x8000), 0x22);
}

#[test]
fn test_fire_hawk_mirroring() {
    let mut m = CamericaMapper::new(0, vec![make_bank(0xFF)]);

    // Write to $8000 with bit 4 set => Higher nametable
    m.cpu_write(0x8000, 0x10);
    m.ppu_write(0x2000, 0xAA);
    assert_eq!(m.ppu_read(0x2400), 0xAA);
    assert_eq!(m.ppu_read(0x2800), 0xAA);

    // Write to $8000 with bit 4 clear => Lower nametable
    m.cpu_write(0x8000, 0x00);
    m.ppu_write(0x2000, 0xBB);
    assert_eq!(m.ppu_read(0x2400), 0xBB);
    assert_eq!(m.ppu_read(0x2800), 0xBB);
}

#[test]
fn camerica_test_chr_ram() {
    let mut m = CamericaMapper::new(0, vec![make_bank(0xFF)]);

    m.ppu_write(0x0100, 0x42);
    assert_eq!(m.ppu_read(0x0100), 0x42);
}

#[test]
fn test_bank_wraps() {
    let mut m = (CamericaMapper::new(
        0,
        vec![make_bank(0xAA), make_bank(0xBB)],
    ));

    m.cpu_write(0xC000, 2);
    assert_eq!(m.cpu_read(0x8000), 0xAA);

    m.cpu_write(0xC000, 3);
    assert_eq!(m.cpu_read(0x8000), 0xBB);
}

