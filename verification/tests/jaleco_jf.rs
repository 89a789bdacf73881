use krankulator_core::savestate::{SavestateReader, SavestateWriter};
use krankulator_core::mapper::jaleco_jf::{JalecoJfMapper, PRG_16K, CHR_8K};


fn make_mapper(is_jf19: bool) -> JalecoJfMapper {
    let mut prg = Vec::new();
    for i in 0..4u8 {
        let mut bank = [0xFFu8; PRG_16K];
        bank[0] = i;
        prg.push(bank);
    }
    let mut chr = Vec::new();
    for i in 0..4u8 {
        chr.push([i * 0x11; CHR_8K]);
    }
    JalecoJfMapper::new(0, prg, chr, is_jf19)
}

#[test]
fn test_jf17_prg_latch_edge() {
    let mut m = make_mapper(false);
    assert_eq!(m.cpu_read(0x8000), 0);
    assert_eq!(m.cpu_read(0xC000), 3);

    // Bit 7 rising edge latches PRG (write to $8001 where ROM=0xFF avoids conflicts)
    m.cpu_write(0x8001, 0x82);
    assert_eq!(m.cpu_read(0x8000), 2);

    // Bit 7 still high: no new latch
    m.cpu_write(0x8001, 0x81);
    assert_eq!(m.cpu_read(0x8000), 2);

    // Clear then set again: latches
    m.cpu_write(0x8001, 0x01);
    m.cpu_write(0x8001, 0x81);
    assert_eq!(m.cpu_read(0x8000), 1);

    // $C000 stays fixed to last bank
    assert_eq!(m.cpu_read(0xC000), 3);
}

#[test]
fn test_jf17_chr_latch_edge() {
    let mut m = make_mapper(false);
    assert_eq!(m.ppu_read(0x0000), 0);

    m.cpu_write(0x8001, 0x43);
    assert_eq!(m.ppu_read(0x0000), 0x33);

    m.cpu_write(0x8001, 0x42);
    assert_eq!(m.ppu_read(0x0000), 0x33);

    m.cpu_write(0x8001, 0x02);
    m.cpu_write(0x8001, 0x42);
    assert_eq!(m.ppu_read(0x0000), 0x22);
}

#[test]
fn test_jf19_prg_at_c000() {
    let mut m = make_mapper(true);
    assert_eq!(m.cpu_read(0x8000), 0);
    assert_eq!(m.cpu_read(0xC000), 0);

    m.cpu_write(0x8001, 0x82);
    assert_eq!(m.cpu_read(0xC000), 2);
    // $8000 stays fixed to first bank
    assert_eq!(m.cpu_read(0x8000), 0);
}

#[test]
fn jaleco_jf_test_savestate_roundtrip() {
    let mut m = make_mapper(false);
    m.cpu_write(0x8001, 0x82);
    m.cpu_write(0x8001, 0x41);

    let mut w = SavestateWriter::new();
    m.save_state(&mut w);
    let data = w.finish();

    let mut m2 = make_mapper(false);
    let mut r = SavestateReader::new(&data).unwrap();
    m2.load_state(&mut r).unwrap();

    assert_eq!(m2.cpu_read(0x8000), m.cpu_read(0x8000));
    assert_eq!(m2.ppu_read(0x0000), m.ppu_read(0x0000));
}

