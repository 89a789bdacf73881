use krankulator_core::mapper::bandai_karaoke::BandaiKaraokeMapper;


fn make_mapper(num_prg: usize) -> BandaiKaraokeMapper {
    let mut prg = Vec::new();
    for i in 0..num_prg {
        let mut bank = [0xFFu8; 16384];
        bank[0] = i as u8;
        prg.push(bank);
    }
    BandaiKaraokeMapper::new(0, prg)
}

#[test]
fn test_internal_and_expansion_banks() {
    let mut m = make_mapper(16);

    m.cpu_write(0x8001, 0x13); // internal, bank 3
    assert_eq!(m.cpu_read(0x8000), 3);
    assert_eq!(m.cpu_read(0xC000), 7); // fixed internal last

    m.cpu_write(0x8001, 0x03); // expansion, bank 8+3
    assert_eq!(m.cpu_read(0x8000), 11);
}

#[test]
fn test_no_expansion_open_bus() {
    let mut m = make_mapper(8);
    m.cpu_write(0x8001, 0x02); // expansion select without expansion ROM
    assert_eq!(m.cpu_read(0x8000), 0xFF);
    m.cpu_write(0xC001, 0x11); // back to internal (write via fixed bank ROM=0xFF)
    assert_eq!(m.cpu_read(0x8000), 1);
}

#[test]
fn test_microphone_reads() {
    let mut m = make_mapper(8);
    assert_eq!(m.cpu_read(0x6000), 0xFB);
}

