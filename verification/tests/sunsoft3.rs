use krankulator_core::mapper::sunsoft3::{Sunsoft3Mapper, CHR_BANK_SIZE};


fn make_mapper() -> Sunsoft3Mapper {
    let mut prg = Vec::new();
    for i in 0..8u8 {
        let mut bank = [0xFFu8; 16384];
        bank[0] = i;
        prg.push(bank);
    }
    let mut chr = Vec::new();
    for i in 0..2u8 {
        let mut bank = [0u8; 8192];
        for k in 0..4 {
            bank[k * CHR_BANK_SIZE] = i * 4 + k as u8;
        }
        chr.push(bank);
    }
    Sunsoft3Mapper::new(0, prg, chr)
}

#[test]
fn sunsoft3_test_prg_and_chr_banking() {
    let mut m = make_mapper();

    assert_eq!(m.cpu_read(0x8000), 0);
    assert_eq!(m.cpu_read(0xC000), 7);
    m.cpu_write(0xF800, 3);
    assert_eq!(m.cpu_read(0x8000), 3);

    m.cpu_write(0x8800, 5);
    m.cpu_write(0xB800, 6);
    assert_eq!(m.ppu_read(0x0000), 5);
    assert_eq!(m.ppu_read(0x1800), 6);
}

#[test]
fn test_irq_write_twice_high_first() {
    let mut m = make_mapper();

    m.cpu_write(0xD800, 0x10); // enable + reset latch
    m.cpu_write(0xC800, 0x00); // high byte
    m.cpu_write(0xC800, 0x03); // low byte -> counter = 3

    m.cpu_cycle(0);
    m.cpu_cycle(0);
    m.cpu_cycle(0);
    assert!(!m.poll_irq());
    // Counter wraps 0 -> 0xFFFF: IRQ
    m.cpu_cycle(0);
    assert!(m.poll_irq());
    // Disabled itself
    m.cpu_cycle(0);
    assert!(!m.poll_irq());
}

#[test]
fn test_irq_ack_on_d800() {
    let mut m = make_mapper();
    m.cpu_write(0xD800, 0x10);
    m.cpu_write(0xC800, 0x00);
    m.cpu_write(0xC800, 0x01);
    m.cpu_cycle(0);
    m.cpu_cycle(0);
    m.cpu_write(0xD800, 0x00); // ack + disable
    assert!(!m.poll_irq());
}

#[test]
fn sunsoft3_test_mirroring_modes() {
    let mut m = make_mapper();

    m.cpu_write(0xE800, 2); // one-screen A
    m.ppu_write(0x2000, 0x11);
    assert_eq!(m.ppu_read(0x2C00), 0x11);

    m.cpu_write(0xE800, 3); // one-screen B
    m.ppu_write(0x2000, 0x22);
    assert_eq!(m.ppu_read(0x2C00), 0x22);
    m.cpu_write(0xE800, 2);
    assert_eq!(m.ppu_read(0x2000), 0x11);
}

