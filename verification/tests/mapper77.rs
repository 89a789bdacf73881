use krankulator_core::savestate::{SavestateReader, SavestateWriter};
use krankulator_core::mapper::mapper77::{Mapper77, CHR_BANK_SIZE};


fn make_mapper() -> Mapper77 {
    let mut prg = Vec::new();
    for i in 0..8u8 {
        let mut bank = [0xFFu8; 16384];
        bank[0] = i;
        prg.push(bank);
    }
    let mut chr = Vec::new();
    for i in 0..2u8 {
        let mut bank = [0u8; 8192];
        for k in 0..4 {
            bank[k * CHR_BANK_SIZE] = i * 4 + k as u8;
        }
        chr.push(bank);
    }
    Mapper77::new(0x08, prg, chr)
}

#[test]
fn mapper77_test_prg_and_chr_banking() {
    let mut m = make_mapper();

    assert_eq!(m.cpu_read(0x8000), 0);
    // Write to $8001 (ROM=0xFF) to avoid bus conflict masking
    m.cpu_write(0x8001, 0x31); // PRG 32KB bank 1, CHR 2KB bank 3
    assert_eq!(m.cpu_read(0x8000), 2); // 32KB bank 1 = 16KB banks 2,3
    assert_eq!(m.ppu_read(0x0000), 3);
}

#[test]
fn test_chr_ram_and_four_screen() {
    let mut m = make_mapper();

    m.ppu_write(0x0800, 0x5A);
    assert_eq!(m.ppu_read(0x0800), 0x5A);
    // CHR-ROM region not writable
    m.ppu_write(0x0000, 0x77);
    assert_eq!(m.ppu_read(0x0000), 0);

    // Four-screen: all four nametables distinct
    m.ppu_write(0x2000, 1);
    m.ppu_write(0x2400, 2);
    m.ppu_write(0x2800, 3);
    m.ppu_write(0x2C00, 4);
    assert_eq!(m.ppu_read(0x2000), 1);
    assert_eq!(m.ppu_read(0x2400), 2);
    assert_eq!(m.ppu_read(0x2800), 3);
    assert_eq!(m.ppu_read(0x2C00), 4);
}

#[test]
fn mapper77_test_savestate_roundtrip() {
    let mut m = make_mapper();
    m.cpu_write(0x8001, 0x21);
    m.ppu_write(0x0900, 0xAB);

    let mut w = SavestateWriter::new();
    m.save_state(&mut w);
    let data = w.finish();

    let mut m2 = make_mapper();
    let mut r = SavestateReader::new(&data).unwrap();
    m2.load_state(&mut r).unwrap();

    assert_eq!(m2.cpu_read(0x8000), m.cpu_read(0x8000));
    assert_eq!(m2.ppu_read(0x0000), m.ppu_read(0x0000));
    assert_eq!(m2.ppu_read(0x0900), 0xAB);
}

