use krankulator_core::savestate::{SavestateReader, SavestateWriter};
use krankulator_core::mapper::namco108::{Namco108Mapper, Namco108Variant, PRG_BANK_SIZE, CHR_BANK_SIZE};


fn make_variant(
    num_prg_16k: usize,
    num_chr_8k: usize,
    variant: Namco108Variant,
) -> Namco108Mapper {
    let mut prg = Vec::new();
    for i in 0..num_prg_16k {
        let mut bank = [0u8; 16384];
        bank[0] = i as u8;
        bank[PRG_BANK_SIZE] = (i * 2 + 1) as u8;
        prg.push(bank);
    }

    let mut chr = Vec::new();
    for i in 0..num_chr_8k {
        let mut bank = [0u8; 8192];
        for k in 0..8 {
            bank[k * CHR_BANK_SIZE] = (i * 8 + k) as u8;
        }
        chr.push(bank);
    }

    Namco108Mapper::new(0, prg, chr, variant)
}

fn make_mapper(
    num_prg_16k: usize,
    num_chr_8k: usize,
    is_mapper88: bool,
) -> Namco108Mapper {
    make_variant(
        num_prg_16k,
        num_chr_8k,
        if is_mapper88 {
            Namco108Variant::M88
        } else {
            Namco108Variant::M206
        },
    )
}

#[test]
fn namco108_test_prg_banking() {
    let mut m = make_mapper(4, 1, false); // 8 x 8KB PRG banks

    // Default: bank 0 at $8000, bank 1 at $A000, last-2 at $C000, last-1 at $E000
    assert_eq!(m.cpu_read(0x8000), 0); // 8KB bank 0: first half of 16KB bank 0
    assert_eq!(m.cpu_read(0xA000), 1); // 8KB bank 1: second half of 16KB bank 0

    // Select register 6, write PRG bank 3
    m.cpu_write(0x8000, 6);
    m.cpu_write(0x8001, 3);
    // 8KB bank 3 = second half of 16KB bank 1, first byte = (1*2+1) = 3
    assert_eq!(m.cpu_read(0x8000), 3);
}

#[test]
fn test_chr_2k_banks() {
    let mut m = make_mapper(2, 4, false); // 32 x 1KB CHR banks

    // Default: CHR reg 0 = 0 (2KB at $0000), reg 1 = 2 (2KB at $0800)
    // reg 2 = 4 (1KB at $1000), reg 3 = 5 (1KB at $1400)
    // reg 4 = 6 (1KB at $1800), reg 5 = 7 (1KB at $1C00)

    // Select register 0, write CHR bank 4 (2KB)
    m.cpu_write(0x8000, 0);
    m.cpu_write(0x8001, 4);
    assert_eq!(m.ppu_read(0x0000), 4); // 1KB bank 4
    assert_eq!(m.ppu_read(0x0400), 5); // 1KB bank 5

    // Select register 2, write CHR bank 10 (1KB)
    m.cpu_write(0x8000, 2);
    m.cpu_write(0x8001, 10);
    assert_eq!(m.ppu_read(0x1000), 10);
}

#[test]
fn test_mapper88_chr_offset() {
    let mut m = make_mapper(2, 4, true);

    // Mapper 88: 1KB regs (2-5) get bit 6 forced on, effectively offsetting into upper CHR
    m.cpu_write(0x8000, 2);
    m.cpu_write(0x8001, 2); // becomes 2 | 0x40 = 0x42
    let bank = (0x42 & 0x3F) as usize; // 2
    assert_eq!(m.ppu_read(0x1000), bank as u8);
}

#[test]
fn test_mapper76_2k_chr_banks() {
    let mut m = make_variant(2, 4, Namco108Variant::M76); // 32 x 1KB CHR banks

    // Reg 2 selects the 2KB bank at $0000 (value in 2KB units)
    m.cpu_write(0x8000, 2);
    m.cpu_write(0x8001, 3); // 2KB bank 3 = 1KB banks 6,7
    assert_eq!(m.ppu_read(0x0000), 6);
    assert_eq!(m.ppu_read(0x0400), 7);

    // Reg 5 selects the 2KB bank at $1800
    m.cpu_write(0x8000, 5);
    m.cpu_write(0x8001, 8); // 2KB bank 8 = 1KB banks 16,17
    assert_eq!(m.ppu_read(0x1800), 16);
    assert_eq!(m.ppu_read(0x1C00), 17);
}

#[test]
fn test_mapper95_nametable_from_chr_bit5() {
    let mut m = make_variant(2, 4, Namco108Variant::M95);

    // Bit 5 of reg 0 drives CIRAM A10 for $2000-$27FF; reg 1 for $2800-$2FFF
    m.cpu_write(0x8000, 0);
    m.cpu_write(0x8001, 0x20); // bit 5 set -> page 1
    m.cpu_write(0x8000, 1);
    m.cpu_write(0x8001, 0x00); // bit 5 clear -> page 0

    m.ppu_write(0x2000, 0xAA);
    // $2000 goes to page 1, $2800 to page 0: no aliasing
    assert_eq!(m.ppu_read(0x2000), 0xAA);
    assert_eq!(m.ppu_read(0x2800), 0x00);

    // $2400 shares page 1 with $2000
    assert_eq!(m.ppu_read(0x2400), 0xAA);
}

#[test]
fn test_mapper154_one_screen_select() {
    let mut m = make_variant(2, 4, Namco108Variant::M154);

    // Bit 6 clear: one-screen A
    m.cpu_write(0x8000, 0x00);
    m.ppu_write(0x2000, 0x11);
    assert_eq!(m.ppu_read(0x2C00), 0x11);

    // Bit 6 set (decoded over the whole $8000-$FFFF range): one-screen B
    m.cpu_write(0xC000, 0x40);
    m.ppu_write(0x2000, 0x22);
    assert_eq!(m.ppu_read(0x2C00), 0x22);
    // Page A content still intact underneath
    m.cpu_write(0xC000, 0x00);
    assert_eq!(m.ppu_read(0x2000), 0x11);
}

#[test]
fn test_mapper154_chr_forced_bit6() {
    let mut m = make_variant(2, 16, Namco108Variant::M154); // 128 x 1KB CHR banks

    // Like mapper 88: 1KB regs (2-5) get bit 6 forced on
    m.cpu_write(0x8000, 2);
    m.cpu_write(0x8001, 2); // stored as 0x42 = 1KB bank 66
    assert_eq!(m.ppu_read(0x1000), 66);
}

#[test]
fn namco108_test_savestate_roundtrip() {
    let mut m = make_mapper(2, 2, false);
    m.cpu_write(0x8000, 6);
    m.cpu_write(0x8001, 2);
    m.cpu_write(0x8000, 0);
    m.cpu_write(0x8001, 4);

    let mut w = SavestateWriter::new();
    m.save_state(&mut w);
    let data = w.finish();

    let mut m2 = make_mapper(2, 2, false);
    let mut r = SavestateReader::new(&data).unwrap();
    m2.load_state(&mut r).unwrap();

    assert_eq!(m2.cpu_read(0x8000), m.cpu_read(0x8000));
    assert_eq!(m2.ppu_read(0x0000), m.ppu_read(0x0000));
}

