use krankulator_core::savestate::{SavestateReader, SavestateWriter};
use krankulator_core::mapper::irem_g101::{IremG101Mapper, PRG_BANK_SIZE, CHR_BANK_SIZE};


fn make_mapper(submapper: u8) -> IremG101Mapper {
    let mut prg = Vec::new();
    for i in 0..4u8 {
        let mut bank = [0u8; 16384];
        bank[0] = i * 2;
        bank[PRG_BANK_SIZE] = i * 2 + 1;
        prg.push(bank);
    }
    let mut chr = Vec::new();
    for i in 0..2u8 {
        let mut bank = [0u8; 8192];
        for k in 0..8 {
            bank[k * CHR_BANK_SIZE] = i * 8 + k as u8;
        }
        chr.push(bank);
    }
    IremG101Mapper::new(0, prg, chr, submapper)
}

#[test]
fn test_prg_mode_0() {
    let mut m = make_mapper(0);

    // Power-on: reg0=0 at $8000, reg1=1 at $A000, fixed last two at $C000/$E000
    assert_eq!(m.cpu_read(0x8000), 0);
    assert_eq!(m.cpu_read(0xA000), 1);
    assert_eq!(m.cpu_read(0xC000), 6);
    assert_eq!(m.cpu_read(0xE000), 7);

    m.cpu_write(0x8000, 3);
    m.cpu_write(0xA000, 4);
    assert_eq!(m.cpu_read(0x8000), 3);
    assert_eq!(m.cpu_read(0xA000), 4);
}

#[test]
fn test_prg_mode_1() {
    let mut m = make_mapper(0);

    m.cpu_write(0x8000, 3);
    m.cpu_write(0x9000, 0x02);
    // Mode 1: $8000 fixed to second-last, $C000 follows reg0
    assert_eq!(m.cpu_read(0x8000), 6);
    assert_eq!(m.cpu_read(0xC000), 3);
    assert_eq!(m.cpu_read(0xE000), 7);
}

#[test]
fn irem_g101_test_chr_banking() {
    let mut m = make_mapper(0);

    m.cpu_write(0xB000, 9);
    m.cpu_write(0xB007, 12);
    assert_eq!(m.ppu_read(0x0000), 9);
    assert_eq!(m.ppu_read(0x1C00), 12);
}

#[test]
fn irem_g101_test_mirroring_control() {
    let mut m = make_mapper(0);

    // Bit 0 = 0: vertical ($2800 mirrors $2000, $2400 is distinct)
    m.cpu_write(0x9000, 0x00);
    m.ppu_write(0x2000, 0x11);
    m.ppu_write(0x2400, 0x22);
    assert_eq!(m.ppu_read(0x2800), 0x11);
    assert_eq!(m.ppu_read(0x2000), 0x11);

    // Bit 0 = 1: horizontal ($2400 mirrors $2000)
    m.cpu_write(0x9000, 0x01);
    assert_eq!(m.ppu_read(0x2400), 0x11);
}

#[test]
fn test_submapper1_ignores_9000() {
    let mut m = make_mapper(1);

    m.cpu_write(0x9000, 0x03);
    // Still mode 0 and one-screen
    m.cpu_write(0x8000, 3);
    assert_eq!(m.cpu_read(0x8000), 3);
    m.ppu_write(0x2000, 0x44);
    assert_eq!(m.ppu_read(0x2C00), 0x44);
}

#[test]
fn irem_g101_test_savestate_roundtrip() {
    let mut m = make_mapper(0);
    m.cpu_write(0x8000, 2);
    m.cpu_write(0x9000, 0x02);
    m.cpu_write(0xB003, 5);

    let mut w = SavestateWriter::new();
    m.save_state(&mut w);
    let data = w.finish();

    let mut m2 = make_mapper(0);
    let mut r = SavestateReader::new(&data).unwrap();
    m2.load_state(&mut r).unwrap();

    assert_eq!(m2.cpu_read(0x8000), m.cpu_read(0x8000));
    assert_eq!(m2.cpu_read(0xC000), m.cpu_read(0xC000));
    assert_eq!(m2.ppu_read(0x0C00), m.ppu_read(0x0C00));
}

