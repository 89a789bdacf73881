use krankulator_core::mapper::gxrom::{GxROMMapper, CHR_8K, PRG_32K};

fn make_mapper() -> GxROMMapper {
    let mut prg = Vec::new();
    for i in 0..4u8 {
        let mut bank = [0xFFu8; PRG_32K];
        bank[0] = i;
        prg.push(bank);
    }
    let mut chr = Vec::new();
    for i in 0..4u8 {
        chr.push([i + 0x10; CHR_8K]);
    }
    GxROMMapper::new(0, prg, chr)
}

#[test]
fn gxrom_register_selects_prg_from_high_bits_and_chr_from_low_bits() {
    let mut m = make_mapper();
    assert_eq!(m.cpu_read(0x8000), 0);
    assert_eq!(m.ppu_read(0x0000), 0x10);
    // Write away from byte 0 so the ROM byte there ($FF) does not mask it.
    m.cpu_write(0x8001, 0x21);
    assert_eq!(m.cpu_read(0x8000), 2);
    assert_eq!(m.ppu_read(0x0000), 0x11);
    assert_eq!(m.mapper_id(), 66);
}

#[test]
fn gxrom_write_is_anded_with_the_rom_byte() {
    let mut m = make_mapper();
    // The ROM byte at $8000 is 0 in bank 0: the write has no effect.
    m.cpu_write(0x8000, 0x33);
    assert_eq!(m.cpu_read(0x8000), 0);
    assert_eq!(m.ppu_read(0x0000), 0x10);
}
