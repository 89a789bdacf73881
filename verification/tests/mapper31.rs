use krankulator_core::mapper::mapper31::{Mapper31, PRG_4K};


fn make_16k_bank(fill: u8) -> [u8; 16384] {
    [fill; 16384]
}

#[test]
fn test_last_bank_at_f000_on_startup() {
    let m = (Mapper31::new(
        0,
        vec![make_16k_bank(0x11), make_16k_bank(0x22)],
    ));

    // 2 16K banks = 8 4K banks (indices 0-7)
    // Bank reg 7 = last bank (7) => $F000 = 0x22
    assert_eq!(m.ppu_read(0x0000), 0x00); // CHR RAM starts empty
                                          // Slot 7 ($F000) should have last 4K bank
}

#[test]
fn test_bank_switching() {
    let mut banks = Vec::new();
    for i in 0..4u8 {
        let mut bank = [0u8; 16384];
        // Fill each 4K chunk differently
        for chunk in 0..4 {
            let fill = i * 4 + chunk as u8;
            let start = chunk * PRG_4K;
            bank[start..start + PRG_4K].fill(fill);
        }
        banks.push(bank);
    }

    let mut m = Mapper31::new(0, banks);

    // Switch slot 0 ($8000-$8FFF) to 4K bank 5
    m.cpu_write(0x5FF8, 5);
    assert_eq!(m.cpu_read(0x8000), 5);

    // Switch slot 1 ($9000-$9FFF) to 4K bank 3
    m.cpu_write(0x5FF9, 3);
    assert_eq!(m.cpu_read(0x9000), 3);
}

#[test]
fn test_writes_below_5ff8_ignored() {
    let mut m = Mapper31::new(0, vec![make_16k_bank(0xFF)]);

    let before = m.cpu_read(0x8000);
    m.cpu_write(0x5FF7, 0x00);
    assert_eq!(m.cpu_read(0x8000), before);
}

#[test]
fn mapper31_test_chr_ram() {
    let mut m = Mapper31::new(0, vec![make_16k_bank(0xFF)]);

    m.ppu_write(0x0100, 0x42);
    assert_eq!(m.ppu_read(0x0100), 0x42);
}

