use krankulator_core::savestate::{SavestateReader, SavestateWriter};
use krankulator_core::mapper::namco175_340::{Namco175_340Mapper, PRG_BANK_SIZE, CHR_BANK_SIZE};


fn make_mapper(num_prg_16k: usize, num_chr_8k: usize, submapper: u8) -> Namco175_340Mapper {
    let mut prg = Vec::new();
    for i in 0..num_prg_16k {
        let mut bank = [0u8; 16384];
        bank[0] = (i * 2) as u8;
        bank[PRG_BANK_SIZE] = (i * 2 + 1) as u8;
        prg.push(bank);
    }

    let mut chr = Vec::new();
    for i in 0..num_chr_8k {
        let mut bank = [0u8; 8192];
        for k in 0..8 {
            bank[k * CHR_BANK_SIZE] = (i * 8 + k) as u8;
        }
        chr.push(bank);
    }

    Namco175_340Mapper::new(0, prg, chr, submapper)
}

#[test]
fn namco175_340_test_prg_banking() {
    let mut m = make_mapper(8, 1, 1);

    assert_eq!(m.cpu_read(0x8000), 0);
    assert_eq!(m.cpu_read(0xA000), 1);
    assert_eq!(m.cpu_read(0xC000), 2);

    m.cpu_write(0xE000, 5);
    assert_eq!(m.cpu_read(0x8000), 5);

    m.cpu_write(0xE800, 7);
    assert_eq!(m.cpu_read(0xA000), 7);

    m.cpu_write(0xF000, 10);
    assert_eq!(m.cpu_read(0xC000), 10);

    assert_eq!(m.cpu_read(0xE000), (8 * 2 - 1));
}

#[test]
fn namco175_340_test_chr_banking() {
    let mut m = make_mapper(2, 4, 1);

    m.cpu_write(0x8000, 10);
    assert_eq!(m.ppu_read(0x0000), 10);

    m.cpu_write(0x8800, 20);
    assert_eq!(m.ppu_read(0x0400), 20);

    m.cpu_write(0x9000, 5);
    assert_eq!(m.ppu_read(0x0800), 5);

    m.cpu_write(0xB800, 30);
    assert_eq!(m.ppu_read(0x1C00), 30);
}

#[test]
fn test_namco175_prg_ram() {
    let mut m = make_mapper(2, 1, 1);

    m.cpu_write(0xC000, 0x01);
    m.cpu_write(0x6000, 0xAB);
    assert_eq!(m.cpu_read(0x6000), 0xAB);

    m.cpu_write(0xC000, 0x00);
    assert_eq!(m.cpu_read(0x6000), 0x00);
}

#[test]
fn test_namco340_no_prg_ram() {
    let mut m = make_mapper(2, 1, 2);

    m.cpu_write(0x6000, 0xAB);
    assert_eq!(m.cpu_read(0x6000), 0x00);
}

#[test]
fn test_namco340_mirroring() {
    let mut m = make_mapper(4, 1, 2);

    m.cpu_write(0xE000, 0x40);
    m.ppu_write(0x2000, 0xAA);
    assert_eq!(m.ppu_read(0x2800), 0xAA);

    m.cpu_write(0xE000, 0xC0);
    m.ppu_write(0x2000, 0xBB);
    assert_eq!(m.ppu_read(0x2400), 0xBB);
}

#[test]
fn test_namco175_hardwired_mirroring() {
    let mut m = make_mapper(4, 1, 1);

    m.ppu_write(0x2000, 0xAA);
    assert_eq!(m.ppu_read(0x2400), 0xAA);

    m.cpu_write(0xE000, 0x40);
    m.ppu_write(0x2800, 0xBB);
    assert_eq!(m.ppu_read(0x2000), 0xAA);
    assert_eq!(m.ppu_read(0x2400), 0xAA);
}

#[test]
fn namco175_340_test_savestate_roundtrip() {
    let mut m = make_mapper(4, 2, 2);
    m.cpu_write(0xE000, 0xC3);
    m.cpu_write(0x8000, 10);
    m.cpu_write(0xA800, 15);

    let mut w = SavestateWriter::new();
    m.save_state(&mut w);
    let data = w.finish();

    let mut m2 = make_mapper(4, 2, 2);
    let mut r = SavestateReader::new(&data).unwrap();
    m2.load_state(&mut r).unwrap();

    assert_eq!(m2.cpu_read(0x8000), m.cpu_read(0x8000));
    assert_eq!(m2.ppu_read(0x0000), m.ppu_read(0x0000));
    assert_eq!(m2.ppu_read(0x1400), m.ppu_read(0x1400));
}

