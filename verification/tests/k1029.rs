use krankulator_core::mapper::k1029::{K1029Mapper, PRG_BANK_SIZE};


fn make_mapper() -> K1029Mapper {
    let mut prg = Vec::new();
    for i in 0..16u8 {
        let mut bank = [0u8; 16384];
        bank[0] = i * 2;
        bank[PRG_BANK_SIZE] = i * 2 + 1;
        prg.push(bank);
    }
    K1029Mapper::new(prg)
}

#[test]
fn test_mode_0_nrom256() {
    let mut m = make_mapper();
    m.cpu_write(0x8000, 2); // 8KB bank base 4
    assert_eq!(m.cpu_read(0x8000), 4);
    assert_eq!(m.cpu_read(0xA000), 5);
    assert_eq!(m.cpu_read(0xC000), 6);
    assert_eq!(m.cpu_read(0xE000), 7);
}

#[test]
fn test_mode_1_unrom() {
    let mut m = make_mapper();
    m.cpu_write(0x8001, 2);
    assert_eq!(m.cpu_read(0x8000), 4);
    assert_eq!(m.cpu_read(0xA000), 5);
    // Upper half fixed UNROM-style
    assert_eq!(m.cpu_read(0xC000), 4 | 0x0E);
    assert_eq!(m.cpu_read(0xE000), (4 | 0x0E) + 1);
}

#[test]
fn test_mode_2_nrom64() {
    let mut m = make_mapper();
    m.cpu_write(0x8002, 3); // 8KB bank 6 mirrored
    assert_eq!(m.cpu_read(0x8000), 6);
    assert_eq!(m.cpu_read(0xA000), 6);
    assert_eq!(m.cpu_read(0xC000), 6);
    assert_eq!(m.cpu_read(0xE000), 6);
}

#[test]
fn test_chr_write_protect_by_mode() {
    let mut m = make_mapper();
    m.cpu_write(0x8000, 0); // mode 0: protected
    m.ppu_write(0x0000, 0x42);
    assert_eq!(m.ppu_read(0x0000), 0);

    m.cpu_write(0x8001, 0); // mode 1: writable
    m.ppu_write(0x0000, 0x42);
    assert_eq!(m.ppu_read(0x0000), 0x42);
}

