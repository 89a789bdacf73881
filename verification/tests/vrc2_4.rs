use krankulator_core::bus::NametableMirror;
use krankulator_core::mapper::vrc2_4::{Vrc2_4Mapper, Variant, resolve_variant, PRG_BANK_SIZE, CHR_BANK_SIZE};


fn make_mapper(
    mapper_id: u8,
    submapper: u8,
    prg_count: usize,
    chr_count: usize,
) -> Vrc2_4Mapper {
    let mut prg_banks = vec![];
    for i in 0..prg_count {
        let mut bank = [0u8; 16384];
        let lo = (i * 2) as u8;
        bank[0] = lo;
        bank[PRG_BANK_SIZE] = lo + 1;
        prg_banks.push(bank);
    }
    let mut chr_banks = vec![];
    for i in 0..chr_count {
        let mut bank = [0u8; 8192];
        for k in 0..8 {
            bank[k * CHR_BANK_SIZE] = (i * 8 + k) as u8;
        }
        chr_banks.push(bank);
    }
    Vrc2_4Mapper::new(1, prg_banks, chr_banks, false, None, mapper_id, submapper)
}

#[test]
fn vrc2_4_test_prg_banking() {
    let mut m = make_mapper(23, 2, 8, 4);
    // 8 x 16KB = 16 x 8KB banks; byte[0] of 8KB bank N = N
    assert_eq!(m.cpu_read(0x8000), 0); // bank 0
    assert_eq!(m.cpu_read(0xE000), 15); // last bank fixed
    m.cpu_write(0x8000, 3);
    assert_eq!(m.cpu_read(0x8000), 3);
    assert_eq!(m.cpu_read(0xE000), 15);
}

#[test]
fn test_prg_swap_mode() {
    let mut m = make_mapper(23, 2, 8, 4);
    m.cpu_write(0x8000, 5);
    assert_eq!(m.cpu_read(0x8000), 5);
    // Enable swap mode via VRC4e reg 2: A0=bit2=0, A1=bit3=1 => $9008
    m.cpu_write(0x9008, 0x02);
    assert_eq!(m.cpu_read(0x8000), 14); // second-to-last
    assert_eq!(m.cpu_read(0xC000), 5);
}

#[test]
fn vrc2_4_test_chr_banking() {
    let mut m = make_mapper(23, 2, 4, 4);
    // Set CHR slot 0 to bank 5: lo=$B000 reg0, hi=$B000 reg1
    // VRC4e: reg0 => bit2=0,bit3=0 => $B000; reg1 => bit2=1,bit3=0 => $B004
    m.cpu_write(0xB000, 5);
    m.cpu_write(0xB004, 0);
    assert_eq!(m.chr_bank_number(0), 5);
}

#[test]
fn test_vrc2a_chr_shift() {
    let mut m = make_mapper(22, 0, 4, 4);
    // VRC2a right-shifts CHR bank number
    m.cpu_write(0xB000, 0x06); // lo = 6
    m.cpu_write(0xB002, 0x00); // hi = 0 (VRC2a: A0=A1,A1=A0, so reg1 = addr with bit1=1,bit0=0)
                               // combined = 6, shifted = 3
    assert_eq!(m.chr_bank_number(0), 3);
}

#[test]
fn vrc2_4_test_mirroring() {
    let mut m = make_mapper(23, 2, 4, 4);
    // VRC4: write to $9000 reg 0 (bit2=0,bit3=0 => $9000)
    m.cpu_write(0x9000, 0); // vertical
    assert_eq!(m.mirroring, NametableMirror::Vertical);
    m.cpu_write(0x9000, 1); // horizontal
    assert_eq!(m.mirroring, NametableMirror::Horizontal);
    m.cpu_write(0x9000, 2); // lower
    assert_eq!(m.mirroring, NametableMirror::Lower);
    m.cpu_write(0x9000, 3); // higher
    assert_eq!(m.mirroring, NametableMirror::Higher);
}

#[test]
fn test_vrc2_mirroring_ignores_bit1() {
    let mut m = make_mapper(22, 0, 4, 4);
    // VRC2a: A0=A1, A1=A0. reg 0 => bit1=0,bit0=0 => $9000
    m.cpu_write(0x9000, 3); // bit 1 should be ignored, only bit 0 matters
    assert_eq!(m.mirroring, NametableMirror::Horizontal);
}

#[test]
fn test_irq_cycle_mode() {
    let mut m = make_mapper(23, 2, 4, 4);
    // Set latch to 0xFE
    m.cpu_write(0xF000, 0x0E); // lo = E
    m.cpu_write(0xF004, 0x0F); // hi = F => latch = 0xFE
                               // Enable IRQ in cycle mode
                               // reg 2 => bit2=0,bit3=1 => $F008
    m.cpu_write(0xF008, 0x06); // E=1, M=1 (cycle mode)
    assert_eq!(m.irq_counter, 0xFE);
    assert!(!m.irq_pending);
    // Clock once: counter goes to 0xFF
    m.cpu_cycle(0);
    assert_eq!(m.irq_counter, 0xFF);
    assert!(!m.irq_pending);
    // Clock again: counter wraps, IRQ fires
    m.cpu_cycle(0);
    assert_eq!(m.irq_counter, 0xFE); // reloaded from latch
    assert!(m.irq_pending);
}

#[test]
fn vrc2_4_test_irq_acknowledge() {
    let mut m = make_mapper(23, 2, 4, 4);
    m.irq_pending = true;
    m.irq_enable_after_ack = true;
    // Acknowledge: reg 3 => bit2=1,bit3=1 => $F00C
    m.cpu_write(0xF00C, 0);
    assert!(!m.irq_pending);
    assert!(m.irq_enable); // copied from enable_after_ack
}

#[test]
fn test_vrc2_no_irq() {
    let mut m = make_mapper(22, 0, 4, 4);
    // VRC2 should not have IRQ
    m.irq_enable = true;
    m.cpu_cycle(0);
    assert!(!m.irq_pending);
}

#[test]
fn test_vrc2_latch() {
    let mut m = make_mapper(22, 0, 4, 4);
    m.cpu_write(0x6000, 0xFF);
    assert_eq!(m.cpu_read(0x6000), 1); // only bit 0
    m.cpu_write(0x6000, 0x00);
    assert_eq!(m.cpu_read(0x6000), 0);
}

#[test]
fn test_variant_resolution() {
    assert_eq!(resolve_variant(22, 0), Variant::Vrc2a);
    assert_eq!(resolve_variant(23, 3), Variant::Vrc2b);
    assert_eq!(resolve_variant(25, 3), Variant::Vrc2c);
    assert_eq!(resolve_variant(21, 1), Variant::Vrc4a);
    assert_eq!(resolve_variant(21, 2), Variant::Vrc4c);
    assert_eq!(resolve_variant(25, 1), Variant::Vrc4b);
    assert_eq!(resolve_variant(25, 2), Variant::Vrc4d);
    assert_eq!(resolve_variant(23, 2), Variant::Vrc4e);
    assert_eq!(resolve_variant(23, 1), Variant::Vrc4f);
    // Defaults without submapper
    assert_eq!(resolve_variant(21, 0), Variant::Vrc4a);
    assert_eq!(resolve_variant(23, 0), Variant::Vrc4e);
    assert_eq!(resolve_variant(25, 0), Variant::Vrc4b);
}

