use krankulator_core::savestate::{SavestateReader, SavestateWriter};
use krankulator_core::bus::NametableMirror;
use krankulator_core::mapper::jaleco_ss88006::JalecoSS88006Mapper;


fn make_mapper(prg_16k_count: usize, chr_8k_count: usize) -> JalecoSS88006Mapper {
    let mut prg_banks = Vec::new();
    for i in 0..prg_16k_count {
        let mut bank = [0u8; 16 * 1024];
        bank[0] = i as u8;
        prg_banks.push(bank);
    }
    let mut chr_banks = Vec::new();
    for i in 0..chr_8k_count {
        let mut bank = [0u8; 8192];
        for k in 0..8 {
            bank[k * 1024] = (i * 8 + k) as u8;
        }
        chr_banks.push(bank);
    }
    JalecoSS88006Mapper::new(0x01, prg_banks, chr_banks, false, None)
}

#[test]
fn test_prg_nibble_banking() {
    let mut m = make_mapper(16, 8);
    // Set PRG bank 0 to 0x15 (low nibble 5, high nibble 1)
    m.cpu_write(0x8000, 0x05);
    m.cpu_write(0x8001, 0x01);
    assert_eq!(m.prg_regs[0], 0x15);
}

#[test]
fn test_chr_nibble_banking() {
    let mut m = make_mapper(16, 32);
    // Set CHR bank 0 to 0xAB: $A000=low, $A001=high
    m.cpu_write(0xA000, 0x0B);
    m.cpu_write(0xA001, 0x0A);
    assert_eq!(m.chr_regs[0], 0xAB);

    // CHR bank 1: $A002=low, $A003=high
    m.cpu_write(0xA002, 0x0C);
    m.cpu_write(0xA003, 0x03);
    assert_eq!(m.chr_regs[1], 0x3C);

    // CHR bank 2: $B000=low, $B001=high
    m.cpu_write(0xB000, 0x05);
    m.cpu_write(0xB001, 0x02);
    assert_eq!(m.chr_regs[2], 0x25);
}

#[test]
fn test_prg_ram_enable() {
    let mut m = make_mapper(16, 8);
    // PRG RAM disabled by default
    m.cpu_write(0x6000, 0x42);
    assert_eq!(m.cpu_read(0x6000), 0);

    // Enable read only
    m.cpu_write(0x9002, 0x01);
    m.prg_ram[0] = 0x99;
    assert_eq!(m.cpu_read(0x6000), 0x99);

    // Write still blocked
    m.cpu_write(0x6000, 0x42);
    assert_eq!(m.cpu_read(0x6000), 0x99);

    // Enable write
    m.cpu_write(0x9002, 0x03);
    m.cpu_write(0x6000, 0x42);
    assert_eq!(m.cpu_read(0x6000), 0x42);
}

#[test]
fn test_irq_16bit_countdown() {
    let mut m = make_mapper(16, 8);
    // Set latch to 3
    m.cpu_write(0xE000, 0x03);
    // Reload and enable (16-bit mode)
    m.cpu_write(0xF000, 0x00);
    m.cpu_write(0xF001, 0x01);

    assert!(!m.irq_pending);
    m.cpu_cycle(0); // 3 -> 2
    assert!(!m.irq_pending);
    m.cpu_cycle(0); // 2 -> 1
    assert!(!m.irq_pending);
    m.cpu_cycle(0); // 1 -> 0 (fires)
    assert!(m.irq_pending);
}

#[test]
fn test_irq_4bit_mode() {
    let mut m = make_mapper(16, 8);
    // Set latch to 0x0012 — in 4-bit mode only low nibble (2) counts
    m.cpu_write(0xE000, 0x02);
    m.cpu_write(0xE001, 0x01);
    // Reload
    m.cpu_write(0xF000, 0x00);
    // Enable with 4-bit mode (F bit = 0x08)
    m.cpu_write(0xF001, 0x09);

    assert!(!m.irq_pending);
    m.cpu_cycle(0); // 2 -> 1
    assert!(!m.irq_pending);
    m.cpu_cycle(0); // 1 -> 0 (fires)
    assert!(m.irq_pending);
}

#[test]
fn jaleco_ss88006_test_irq_acknowledge() {
    let mut m = make_mapper(16, 8);
    m.irq_pending = true;
    m.cpu_write(0xF000, 0x00); // acknowledge
    assert!(!m.irq_pending);
}

#[test]
fn jaleco_ss88006_test_mirroring() {
    let mut m = make_mapper(16, 8);
    m.cpu_write(0xF002, 0x00);
    assert_eq!(m.mirroring, NametableMirror::Horizontal);
    m.cpu_write(0xF002, 0x01);
    assert_eq!(m.mirroring, NametableMirror::Vertical);
    m.cpu_write(0xF002, 0x02);
    assert_eq!(m.mirroring, NametableMirror::Lower);
    m.cpu_write(0xF002, 0x03);
    assert_eq!(m.mirroring, NametableMirror::Higher);
}

#[test]
fn test_fixed_last_prg() {
    let mut m = make_mapper(16, 8);
    // 32 x 8KB banks, last is index 31
    m.prg_rom[31][0] = 0xDD;
    assert_eq!(m.cpu_read(0xE000), 0xDD);
}

#[test]
fn jaleco_ss88006_test_savestate_roundtrip() {
    let mut m = make_mapper(16, 8);
    m.cpu_write(0x8000, 0x05);
    m.cpu_write(0x8001, 0x01);
    m.cpu_write(0xA000, 0x0B);
    m.cpu_write(0xA001, 0x0A);
    m.cpu_write(0xF002, 0x02);
    m.irq_pending = true;
    m.irq_counter = 0x1234;

    let mut w = SavestateWriter::new();
    m.save_state(&mut w);

    let mut m2 = make_mapper(16, 8);
    let data = w.finish();
    let mut r = SavestateReader::new(&data).unwrap();
    m2.load_state(&mut r).unwrap();

    assert_eq!(m2.prg_regs[0], 0x15);
    assert_eq!(m2.chr_regs[0], 0xAB);
    assert_eq!(m2.mirroring, NametableMirror::Lower);
    assert!(m2.irq_pending);
    assert_eq!(m2.irq_counter, 0x1234);
}

