use krankulator_core::savestate::{SavestateReader, SavestateWriter};
use krankulator_core::mapper::taito::{Taito33Mapper, PRG_BANK_SIZE, CHR_BANK_SIZE};


fn make_mapper(num_prg_16k: usize, num_chr_8k: usize) -> Taito33Mapper {
    make_mapper_variant(num_prg_16k, num_chr_8k, false)
}

fn make_mapper48(num_prg_16k: usize, num_chr_8k: usize) -> Taito33Mapper {
    make_mapper_variant(num_prg_16k, num_chr_8k, true)
}

fn make_mapper_variant(
    num_prg_16k: usize,
    num_chr_8k: usize,
    is_mapper48: bool,
) -> Taito33Mapper {
    let mut prg = Vec::new();
    for i in 0..num_prg_16k {
        let mut bank = [0u8; 16384];
        bank[0] = (i * 2) as u8;
        bank[PRG_BANK_SIZE] = (i * 2 + 1) as u8;
        prg.push(bank);
    }

    let mut chr = Vec::new();
    for i in 0..num_chr_8k {
        let mut bank = [0u8; 8192];
        for k in 0..8 {
            bank[k * CHR_BANK_SIZE] = (i * 8 + k) as u8;
        }
        chr.push(bank);
    }

    Taito33Mapper::new_variant(0, prg, chr, is_mapper48)
}

#[test]
fn taito_test_prg_banking() {
    let mut m = make_mapper(4, 1);

    assert_eq!(m.cpu_read(0x8000), 0);
    assert_eq!(m.cpu_read(0xA000), 1);

    m.cpu_write(0x8000, 3);
    assert_eq!(m.cpu_read(0x8000), 3);

    m.cpu_write(0x8001, 5);
    assert_eq!(m.cpu_read(0xA000), 5);

    // Aliased writes: $8100 should decode as $8000
    m.cpu_write(0x8100, 2);
    assert_eq!(m.cpu_read(0x8000), 2);

    // $C000/$E000 are fixed to last two banks
    assert_eq!(m.cpu_read(0xC000), 6);
    assert_eq!(m.cpu_read(0xE000), 7);
}

#[test]
fn test_chr_2k_banking() {
    let mut m = make_mapper(2, 4); // 32 x 1KB CHR banks

    // Write 2KB bank 3 to $0000 => 1KB banks 6,7
    m.cpu_write(0x8002, 3);
    assert_eq!(m.ppu_read(0x0000), 6);
    assert_eq!(m.ppu_read(0x0400), 7);

    // Write 2KB bank 5 to $0800 => 1KB banks 10,11
    m.cpu_write(0x8003, 5);
    assert_eq!(m.ppu_read(0x0800), 10);
    assert_eq!(m.ppu_read(0x0C00), 11);
}

#[test]
fn test_chr_1k_banking() {
    let mut m = make_mapper(2, 4);

    m.cpu_write(0xA000, 15);
    assert_eq!(m.ppu_read(0x1000), 15);

    m.cpu_write(0xA001, 20);
    assert_eq!(m.ppu_read(0x1400), 20);

    m.cpu_write(0xA002, 25);
    assert_eq!(m.ppu_read(0x1800), 25);

    m.cpu_write(0xA003, 30);
    assert_eq!(m.ppu_read(0x1C00), 30);
}

#[test]
fn taito_test_mirroring() {
    let mut m = make_mapper(2, 1);

    // Default: horizontal (flag bit 0 = 0)
    m.ppu_write(0x2000, 0xAA);
    assert_eq!(m.ppu_read(0x2400), 0xAA); // horizontal mirror

    // Set vertical via $8000 bit 6 = 0 (clear bit 6)
    // First set horizontal via bit 6
    m.cpu_write(0x8000, 0x40);
    m.ppu_write(0x2000, 0xBB);
    assert_eq!(m.ppu_read(0x2400), 0xBB); // still horizontal

    // Clear bit 6 → vertical
    m.cpu_write(0x8000, 0x00);
    m.ppu_write(0x2000, 0xCC);
    assert_eq!(m.ppu_read(0x2800), 0xCC); // vertical mirror
}

#[test]
fn test_mapper48_mirroring_at_e000() {
    let mut m = make_mapper48(2, 1);

    m.ppu_write(0x2000, 0xAA);
    assert_eq!(m.ppu_read(0x2400), 0xAA);

    m.cpu_write(0xE000, 0x00);
    m.ppu_write(0x2000, 0xBB);
    assert_eq!(m.ppu_read(0x2800), 0xBB);

    m.cpu_write(0xE000, 0x40);
    m.ppu_write(0x2000, 0xCC);
    assert_eq!(m.ppu_read(0x2400), 0xCC);
}

#[test]
fn test_mapper48_prg_no_mirroring_bit() {
    let mut m = make_mapper48(4, 1);

    m.cpu_write(0x8000, 0x42);
    assert_eq!(m.cpu_read(0x8000), m.cpu_read(0x8000));
    assert_eq!(m.mapper_id(), 48);

    m.ppu_write(0x2000, 0xAA);
    assert_eq!(m.ppu_read(0x2400), 0xAA);
}

#[test]
fn test_mapper48_irq_disable_clears_pending() {
    let mut m = make_mapper48(2, 2);

    m.cpu_write(0xC002, 0x00);
    m.cpu_write(0xC003, 0x00);
    assert!(!m.poll_irq());
}

#[test]
fn taito_test_savestate_roundtrip() {
    let mut m = make_mapper(2, 2);
    m.cpu_write(0x8000, 2);
    m.cpu_write(0x8002, 5);
    m.cpu_write(0xA000, 12);

    let mut w = SavestateWriter::new();
    m.save_state(&mut w);
    let data = w.finish();

    let mut m2 = make_mapper(2, 2);
    let mut r = SavestateReader::new(&data).unwrap();
    m2.load_state(&mut r).unwrap();

    assert_eq!(m2.cpu_read(0x8000), m.cpu_read(0x8000));
    assert_eq!(m2.ppu_read(0x0000), m.ppu_read(0x0000));
    assert_eq!(m2.ppu_read(0x1000), m.ppu_read(0x1000));
}

#[test]
fn test_mapper48_savestate_roundtrip() {
    let mut m = make_mapper48(2, 2);
    m.cpu_write(0x8000, 2);
    m.cpu_write(0x8002, 5);
    m.cpu_write(0xC000, 0x10);
    m.cpu_write(0xC002, 0x00);

    let mut w = SavestateWriter::new();
    m.save_state(&mut w);
    let data = w.finish();

    let mut m2 = make_mapper48(2, 2);
    let mut r = SavestateReader::new(&data).unwrap();
    m2.load_state(&mut r).unwrap();

    assert_eq!(m2.cpu_read(0x8000), m.cpu_read(0x8000));
    assert_eq!(m2.ppu_read(0x0000), m.ppu_read(0x0000));
}

