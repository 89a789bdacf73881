use krankulator_core::savestate::{SavestateReader, SavestateWriter};
use krankulator_core::mapper::taito_x1005::{TaitoX1005Mapper, PRG_BANK_SIZE, CHR_BANK_SIZE};


fn make_mapper(alternate: bool) -> TaitoX1005Mapper {
    let mut prg = Vec::new();
    for i in 0..4u8 {
        let mut bank = [0u8; 16384];
        bank[0] = i * 2;
        bank[PRG_BANK_SIZE] = i * 2 + 1;
        prg.push(bank);
    }
    let mut chr = Vec::new();
    for i in 0..2u8 {
        let mut bank = [0u8; 8192];
        for k in 0..8 {
            bank[k * CHR_BANK_SIZE] = i * 8 + k as u8;
        }
        chr.push(bank);
    }
    TaitoX1005Mapper::new(0, prg, chr, alternate, None)
}

#[test]
fn taito_x1005_test_prg_banking() {
    let mut m = make_mapper(false);

    assert_eq!(m.cpu_read(0xE000), 7); // fixed last

    m.cpu_write(0x7EFA, 3);
    m.cpu_write(0x7EFC, 4);
    m.cpu_write(0x7EFE, 5);
    assert_eq!(m.cpu_read(0x8000), 3);
    assert_eq!(m.cpu_read(0xA000), 4);
    assert_eq!(m.cpu_read(0xC000), 5);
}

#[test]
fn taito_x1005_test_chr_banking() {
    let mut m = make_mapper(false);

    m.cpu_write(0x7EF0, 4); // 2KB: 1KB banks 4,5 at $0000
    m.cpu_write(0x7EF1, 6); // 2KB: 1KB banks 6,7 at $0800
    m.cpu_write(0x7EF2, 10);
    assert_eq!(m.ppu_read(0x0000), 4);
    assert_eq!(m.ppu_read(0x0400), 5);
    assert_eq!(m.ppu_read(0x0800), 6);
    assert_eq!(m.ppu_read(0x1000), 10);
}

#[test]
fn test_ram_permission() {
    let mut m = make_mapper(false);

    m.cpu_write(0x7F00, 0x42);
    assert_eq!(m.cpu_read(0x7F00), 0);

    m.cpu_write(0x7EF8, 0xA3);
    m.cpu_write(0x7F00, 0x42);
    assert_eq!(m.cpu_read(0x7F00), 0x42);
    // 128 bytes mirrored: $7F80 aliases $7F00
    assert_eq!(m.cpu_read(0x7F80), 0x42);

    m.cpu_write(0x7EF8, 0x00);
    assert_eq!(m.cpu_read(0x7F00), 0);
}

#[test]
fn test_mapper207_nt_from_chr_regs() {
    let mut m = make_mapper(true);

    m.cpu_write(0x7EF0, 0x80); // NT0/NT1 -> page 1
    m.cpu_write(0x7EF1, 0x00); // NT2/NT3 -> page 0

    m.ppu_write(0x2000, 0xAA);
    assert_eq!(m.ppu_read(0x2400), 0xAA);
    assert_eq!(m.ppu_read(0x2800), 0x00);

    // Mirroring reg is ignored on 207
    m.cpu_write(0x7EF6, 0x01);
    assert_eq!(m.ppu_read(0x2400), 0xAA);
}

#[test]
fn taito_x1005_test_savestate_roundtrip() {
    let mut m = make_mapper(false);
    m.cpu_write(0x7EFA, 2);
    m.cpu_write(0x7EF8, 0xA3);
    m.cpu_write(0x7F10, 0x55);

    let mut w = SavestateWriter::new();
    m.save_state(&mut w);
    let data = w.finish();

    let mut m2 = make_mapper(false);
    let mut r = SavestateReader::new(&data).unwrap();
    m2.load_state(&mut r).unwrap();

    assert_eq!(m2.cpu_read(0x8000), m.cpu_read(0x8000));
    assert_eq!(m2.cpu_read(0x7F10), 0x55);
}

