use krankulator_core::mapper::oeka_kids::OekaKidsMapper;


fn make_mapper() -> OekaKidsMapper {
    let mut prg = Vec::new();
    for i in 0..8u8 {
        let mut bank = [0xFFu8; 16384];
        bank[0] = i;
        prg.push(bank);
    }
    OekaKidsMapper::new(0, prg)
}

#[test]
fn oeka_kids_test_prg_banking() {
    let mut m = make_mapper();
    assert_eq!(m.cpu_read(0x8000), 0);
    m.cpu_write(0x8001, 0x02); // 32KB bank 2 (write to 0xFF ROM byte)
    assert_eq!(m.cpu_read(0x8000), 4);
}

#[test]
fn test_chr_latch_from_nt_fetch() {
    let mut m = make_mapper();

    // Write markers into each 4KB page via the latch
    for page in 0..3u16 {
        m.ppu_fetch(0x0000, 0); // leave $2xxx
        m.ppu_fetch(0x2000 | (page << 8), 0); // latch inner bank
        m.ppu_write(0x0000, 0x10 + page as u8);
    }

    for page in 0..3u16 {
        m.ppu_fetch(0x0000, 0);
        m.ppu_fetch(0x2000 | (page << 8), 0);
        assert_eq!(m.ppu_read(0x0000), 0x10 + page as u8);
    }

    // Only the transition into $2xxx latches: staying in $2xxx does not
    m.ppu_fetch(0x0000, 0);
    m.ppu_fetch(0x2000, 0); // latch 0
    m.ppu_fetch(0x2300, 0); // no latch (still in $2xxx)
    assert_eq!(m.ppu_read(0x0000), 0x10);
}

#[test]
fn test_upper_chr_page_semi_fixed() {
    let mut m = make_mapper();

    // Page at $1000 is outer|3
    m.ppu_write(0x1000, 0x77);
    m.ppu_fetch(0x0000, 0);
    m.ppu_fetch(0x2300, 0); // inner = 3
    assert_eq!(m.ppu_read(0x0000), 0x77); // inner 3 aliases upper page
}

