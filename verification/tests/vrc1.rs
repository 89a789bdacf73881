use krankulator_core::savestate::{SavestateReader, SavestateWriter};
use krankulator_core::mapper::vrc1::{Vrc1Mapper, PRG_8K, CHR_4K};


fn make_mapper(num_prg_16k: usize, num_chr_8k: usize) -> Vrc1Mapper {
    let mut prg = Vec::new();
    for i in 0..num_prg_16k {
        let mut bank = [0xFFu8; 16384];
        bank[0] = (i * 2) as u8;
        bank[PRG_8K] = (i * 2 + 1) as u8;
        prg.push(bank);
    }
    let mut chr = Vec::new();
    for i in 0..num_chr_8k {
        let mut bank = [0u8; 8192];
        bank[0] = (i * 2) as u8;
        bank[CHR_4K] = (i * 2 + 1) as u8;
        chr.push(bank);
    }
    Vrc1Mapper::new(0, prg, chr)
}

#[test]
fn vrc1_test_prg_banking() {
    let mut m = make_mapper(4, 1); // 8 x 8KB PRG banks

    assert_eq!(m.cpu_read(0x8000), 0);
    assert_eq!(m.cpu_read(0xA000), 1);
    assert_eq!(m.cpu_read(0xC000), 2);
    assert_eq!(m.cpu_read(0xE000), 7); // last bank fixed

    m.cpu_write(0x8000, 5);
    assert_eq!(m.cpu_read(0x8000), 5);

    m.cpu_write(0xA000, 3);
    assert_eq!(m.cpu_read(0xA000), 3);

    m.cpu_write(0xC000, 6);
    assert_eq!(m.cpu_read(0xC000), 6);

    // $E000 stays fixed
    assert_eq!(m.cpu_read(0xE000), 7);
}

#[test]
fn vrc1_test_chr_banking() {
    let mut m = make_mapper(2, 8); // 16 x 4KB CHR banks

    // $9000 bit 1 = CHR0 high bit, bit 2 = CHR1 high bit
    // $E000 low 4 = CHR0 low bits, $F000 low 4 = CHR1 low bits
    m.cpu_write(0xE000, 3); // CHR0 = 4KB bank 3
    assert_eq!(m.ppu_read(0x0000), 3);

    m.cpu_write(0xF000, 5); // CHR1 = 5
    assert_eq!(m.ppu_read(0x1000), 5);

    // Set high bits via $9000
    m.cpu_write(0x9000, 0x02); // bit 1 set = CHR0 high bit
                               // CHR0 = (1 << 4) | 3 = 19, 4KB bank 19 % 16 = 3 (wraps)
                               // With 8 x 8KB = 16 x 4KB, bank 19 % 16 = 3
    assert_eq!(m.ppu_read(0x0000), 3);
}

#[test]
fn vrc1_test_mirroring() {
    let mut m = make_mapper(2, 1);

    // Default: vertical (flags=0, bit 0 = 0 → H, but VRC1 overrides)
    // Actually flags=0 → horizontal from mirroring_from_flags

    // Write $9000 bit 0 = 0 → vertical
    m.cpu_write(0x9000, 0x00);
    m.ppu_write(0x2000, 0xAA);
    assert_eq!(m.ppu_read(0x2800), 0xAA); // vertical mirror

    // Write $9000 bit 0 = 1 → horizontal
    m.cpu_write(0x9000, 0x01);
    m.ppu_write(0x2000, 0xBB);
    assert_eq!(m.ppu_read(0x2400), 0xBB); // horizontal mirror
}

#[test]
fn vrc1_test_savestate_roundtrip() {
    let mut m = make_mapper(4, 4);
    m.cpu_write(0x8000, 3);
    m.cpu_write(0xE000, 5);
    m.cpu_write(0x9000, 0x06); // CHR high bits + horizontal

    let mut w = SavestateWriter::new();
    m.save_state(&mut w);
    let data = w.finish();

    let mut m2 = make_mapper(4, 4);
    let mut r = SavestateReader::new(&data).unwrap();
    m2.load_state(&mut r).unwrap();

    assert_eq!(m2.cpu_read(0x8000), m.cpu_read(0x8000));
    assert_eq!(m2.ppu_read(0x0000), m.ppu_read(0x0000));
}

