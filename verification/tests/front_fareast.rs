use krankulator_core::mapper::front_fareast::{FrontFareastMapper, PRG_BANK_SIZE};


fn make_mapper() -> FrontFareastMapper {
    let mut prg = Vec::new();
    for i in 0..16u8 {
        let mut bank = [0u8; 16384];
        bank[0] = i * 2;
        bank[PRG_BANK_SIZE] = i * 2 + 1;
        prg.push(bank);
    }
    FrontFareastMapper::new(0, prg, vec![])
}

#[test]
fn test_power_on_and_banking() {
    let mut m = make_mapper();
    assert_eq!(m.cpu_read(0x8000), 0);
    assert_eq!(m.cpu_read(0xC000), 14);
    assert_eq!(m.cpu_read(0xE000), 15);

    m.cpu_write(0x8000, 3 << 2); // 16KB bank 3
    assert_eq!(m.cpu_read(0x8000), 6);
    assert_eq!(m.cpu_read(0xA000), 7);
    assert_eq!(m.cpu_read(0xC000), 14); // fixed
}

#[test]
fn front_fareast_test_chr_ram_banking() {
    let mut m = make_mapper();
    for bank in 0..4u8 {
        m.cpu_write(0x8000, bank);
        m.ppu_write(0x0000, 0x20 + bank);
    }
    for bank in 0..4u8 {
        m.cpu_write(0x8000, bank);
        assert_eq!(m.ppu_read(0x0000), 0x20 + bank);
    }
}

#[test]
fn test_irq_up_counter() {
    let mut m = make_mapper();
    m.cpu_write(0x4502, 0xFD); // low
    m.cpu_write(0x4503, 0xFF); // high + enable -> counter = 0xFFFD

    m.cpu_cycle(0);
    m.cpu_cycle(0);
    assert!(!m.poll_irq());
    m.cpu_cycle(0); // wraps to 0
    assert!(m.poll_irq());
}

#[test]
fn test_one_screen_mirroring() {
    let mut m = make_mapper();
    m.cpu_write(0x42FE, 0x10); // one-screen B
    m.ppu_write(0x2000, 0x33);
    assert_eq!(m.ppu_read(0x2C00), 0x33);
}

