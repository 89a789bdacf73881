use krankulator_core::savestate::{SavestateReader, SavestateWriter};
use krankulator_core::mapper::cprom::CpromMapper;


fn make_mapper() -> CpromMapper {
    let mut prg = Vec::new();
    for i in 0..2u8 {
        let mut bank = [0xFFu8; 16384];
        bank[0] = i;
        prg.push(bank);
    }
    CpromMapper::new(1, prg)
}

#[test]
fn cprom_test_chr_ram_banking() {
    let mut m = make_mapper();

    // Fill each 4KB page with a marker via banking
    for page in 0..4u8 {
        m.cpu_write(0x8001, page); // ROM=0xFF at $8001, no conflict masking
        m.ppu_write(0x1000, 0x10 + page);
    }
    for page in 0..4u8 {
        m.cpu_write(0x8001, page);
        assert_eq!(m.ppu_read(0x1000), 0x10 + page);
    }

    // $0000-$0FFF is fixed to page 0
    m.ppu_write(0x0000, 0x42);
    m.cpu_write(0x8001, 0);
    assert_eq!(m.ppu_read(0x1000), 0x42);
}

#[test]
fn test_prg_fixed() {
    let mut m = make_mapper();
    assert_eq!(m.cpu_read(0x8000), 0);
    assert_eq!(m.cpu_read(0xC000), 1);
    m.cpu_write(0x8001, 3);
    assert_eq!(m.cpu_read(0x8000), 0);
}

#[test]
fn cprom_test_savestate_roundtrip() {
    let mut m = make_mapper();
    m.cpu_write(0x8001, 2);
    m.ppu_write(0x1234, 0x99);

    let mut w = SavestateWriter::new();
    m.save_state(&mut w);
    let data = w.finish();

    let mut m2 = make_mapper();
    let mut r = SavestateReader::new(&data).unwrap();
    m2.load_state(&mut r).unwrap();

    assert_eq!(m2.ppu_read(0x1234), 0x99);
}

