use krankulator_core::mapper::daou::{DaouMapper, CHR_BANK_SIZE};


fn make_mapper() -> DaouMapper {
    let mut prg = Vec::new();
    for i in 0..4u8 {
        let mut bank = [0u8; 16384];
        bank[0] = i;
        prg.push(bank);
    }
    let mut chr = Vec::new();
    for i in 0..4u8 {
        let mut bank = [0u8; 8192];
        for k in 0..8 {
            bank[k * CHR_BANK_SIZE] = i * 8 + k as u8;
        }
        chr.push(bank);
    }
    DaouMapper::new(prg, chr)
}

#[test]
fn daou_test_prg_and_chr_banking() {
    let mut m = make_mapper();

    assert_eq!(m.cpu_read(0xC000), 3);
    m.cpu_write(0xC010, 2);
    assert_eq!(m.cpu_read(0x8000), 2);

    // CHR slot 0: low reg at $C000
    m.cpu_write(0xC000, 9);
    assert_eq!(m.ppu_read(0x0000), 9);
    // CHR slot 4: low reg at $C008
    m.cpu_write(0xC008, 17);
    assert_eq!(m.ppu_read(0x1000), 17);
    // High reg contributes bit 8 (wraps via modulo with only 32 banks)
    m.cpu_write(0xC004, 1);
    assert_eq!(m.ppu_read(0x0000), ((256 + 9) % 32) as u8);
}

#[test]
fn test_default_one_screen() {
    let mut m = make_mapper();
    m.ppu_write(0x2000, 0x42);
    assert_eq!(m.ppu_read(0x2C00), 0x42);

    m.cpu_write(0xC014, 0);
    m.ppu_write(0x2000, 0x11);
    m.ppu_write(0x2400, 0x22);
    assert_eq!(m.ppu_read(0x2800), 0x11); // vertical
}

