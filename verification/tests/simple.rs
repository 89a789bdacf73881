use krankulator_core::mapper::simple::{SimpleMapper, PRG_16K, CHR_8K, CHR_4K};


#[test]
fn test_mapper87_chr_swap() {
    let prg = [0u8; PRG_16K];
    let chr0 = [0x11u8; CHR_8K];
    let chr1 = [0x22u8; CHR_8K];

    let mut m = SimpleMapper::mapper87(0, vec![prg, prg], vec![chr0, chr1]);

    assert_eq!(m.ppu_read(0x0000), 0x11);
    // value=2: bit0=0, bit1=1 => swapped=(0<<1)|(1)=1
    m.cpu_write(0x6000, 0x02);
    assert_eq!(m.ppu_read(0x0000), 0x22);
    // value=0 => bank 0
    m.cpu_write(0x6000, 0x00);
    assert_eq!(m.ppu_read(0x0000), 0x11);
}

#[test]
fn test_mapper152_prg_and_mirroring() {
    let mut prg_banks = Vec::new();
    for i in 0..4u8 {
        let mut bank = [0xFFu8; PRG_16K];
        bank[0] = i;
        prg_banks.push(bank);
    }
    let chr = [0u8; CHR_8K];

    let mut m = SimpleMapper::mapper152(prg_banks, vec![chr]);

    m.cpu_write(0x8001, 0x20); // PRG=2, CHR=0, mirror=Lower (write to 0x8001 where ROM=0xFF)
    assert_eq!(m.cpu_read(0x8000), 2);
    // Last bank fixed at $C000
    assert_eq!(m.cpu_read(0xC000), 3);
}

#[test]
fn test_mapper140_prg_chr() {
    let mut prg_banks = Vec::new();
    for i in 0..4u8 {
        let mut bank = [0u8; PRG_16K];
        bank[0] = i;
        prg_banks.push(bank);
    }
    let chr0 = [0xAAu8; CHR_8K];
    let chr1 = [0xBBu8; CHR_8K];

    let mut m = SimpleMapper::mapper140(0, prg_banks, vec![chr0, chr1]);

    m.cpu_write(0x6000, 0x11); // PRG bank 1, CHR bank 1
    assert_eq!(m.ppu_read(0x0000), 0xBB);
}

#[test]
fn test_mapper180_fixed_first() {
    let mut prg_banks = Vec::new();
    for i in 0..4u8 {
        let mut bank = [0xFFu8; PRG_16K];
        bank[0] = i;
        prg_banks.push(bank);
    }

    let mut m = SimpleMapper::mapper180(0, prg_banks, vec![]);

    assert_eq!(m.cpu_read(0x8000), 0);
    m.cpu_write(0x8001, 2); // write to 0x8001 where ROM=0xFF for clean bus conflict
    assert_eq!(m.cpu_read(0xC000), 2);
    assert_eq!(m.cpu_read(0x8000), 0); // still fixed
}

#[test]
fn test_mapper184_4k_chr() {
    let mut chr0 = [0u8; CHR_8K];
    chr0[..CHR_4K].fill(0x11); // 4K bank 0
    chr0[CHR_4K..].fill(0x22); // 4K bank 1
    let mut chr1 = [0u8; CHR_8K];
    chr1[..CHR_4K].fill(0x33); // 4K bank 2
    chr1[CHR_4K..].fill(0x44); // 4K bank 3

    let prg = [0u8; PRG_16K];
    let mut m = SimpleMapper::mapper184(0, vec![prg, prg], vec![chr0, chr1]);

    // Initial: lo=bank0, hi=bank1
    assert_eq!(m.ppu_read(0x0000), 0x11);

    // Write lo=1, hi=0 (with hi offset to second chip at index 4)
    // Actually mapper 184 hi bank adds 4, so value $01 => lo=1, hi=4
    m.cpu_write(0x6000, 0x01);
    assert_eq!(m.ppu_read(0x0000), 0x22); // 4K bank 1
}

#[test]
fn test_mapper185_protection() {
    let prg = [0xFFu8; PRG_16K];
    let chr = [0x55u8; CHR_8K];

    let mut m = SimpleMapper::mapper185(0, vec![prg, prg], vec![chr], 0);

    // CHR starts disabled for mapper 185
    assert_eq!(m.ppu_read(0x0000), 0xFF);
    // Write nonzero value to enable CHR (submapper 0 heuristic)
    m.cpu_write(0x8000, 0x01);
    assert_eq!(m.ppu_read(0x0000), 0x55);
    // Write 0 to disable CHR
    m.cpu_write(0x8000, 0x00);
    assert_eq!(m.ppu_read(0x0000), 0xFF);
}


#[test]
fn mapper140_switches_both_prg_halves() {
    let mut prg_banks = Vec::new();
    for i in 0..5u8 {
        let mut bank = [0u8; PRG_16K];
        bank[0] = i;
        prg_banks.push(bank);
    }
    let mut m = SimpleMapper::mapper140(0, prg_banks, vec![[0u8; CHR_8K]]);
    m.cpu_write(0x6000, 0x10);
    assert_eq!(m.cpu_read(0x8000), 2);
    assert_eq!(m.cpu_read(0xC000), 3);
    // The third 32KB bank has only one 16KB half, shown in both windows.
    m.cpu_write(0x7000, 0x20);
    assert_eq!(m.cpu_read(0x8000), 4);
    assert_eq!(m.cpu_read(0xC000), 4);
}
