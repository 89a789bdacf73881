use krankulator_core::mapper::color_dreams::{ColorDreamsMapper, PRG_32K};


fn make_prg(fill: u8) -> [u8; PRG_32K] {
    [fill; PRG_32K]
}

fn make_chr(fill: u8) -> [u8; 8192] {
    [fill; 8192]
}

#[test]
fn color_dreams_test_prg_bank_switching() {
    let prg = vec![
        make_prg(0xFF),
        make_prg(0xBB),
        make_prg(0xCC),
        make_prg(0xDD),
    ];
    let chr = vec![make_chr(0)];
    let mut m = ColorDreamsMapper::new(0, prg, chr);

    assert_eq!(m.cpu_read(0x8000), 0xFF);
    // 0x01 & 0xFF = 0x01 → PRG bank 1
    m.cpu_write(0x8000, 0x01);
    assert_eq!(m.cpu_read(0x8000), 0xBB);
}

#[test]
fn test_chr_bank_switching() {
    let prg = vec![make_prg(0xFF)];
    let chr = vec![make_chr(0x11), make_chr(0x22), make_chr(0x33)];
    let mut m = ColorDreamsMapper::new(0, prg, chr);

    assert_eq!(m.ppu_read(0x0000), 0x11);
    // 0x10 & 0xFF = 0x10 → CHR bank 1
    m.cpu_write(0x8000, 0x10);
    assert_eq!(m.ppu_read(0x0000), 0x22);
    // 0x20 & 0xFF = 0x20 → CHR bank 2
    m.cpu_write(0x8000, 0x20);
    assert_eq!(m.ppu_read(0x0000), 0x33);
}

#[test]
fn test_bus_conflicts() {
    let mut prg = make_prg(0x00);
    prg[0] = 0x01; // only bit 0 set at $8000
    let chr = vec![make_chr(0x11), make_chr(0x22)];
    let mut m = ColorDreamsMapper::new(0, vec![prg], chr);

    // Write 0x13 but ROM has 0x01, AND = 0x01 → PRG bank 1, CHR bank 0
    m.cpu_write(0x8000, 0x13);
    assert_eq!(m.ppu_read(0x0000), 0x11);
}

#[test]
fn test_mirroring_from_header() {
    let prg = vec![make_prg(0xFF)];
    let chr = vec![make_chr(0)];
    let mut m = ColorDreamsMapper::new(0x01, prg, chr);

    // Vertical mirroring: $2000 mirrors to $2800
    m.ppu_write(0x2000, 0x42);
    assert_eq!(m.ppu_read(0x2800), 0x42);
}

