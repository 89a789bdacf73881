use krankulator_core::mapper::namco163::{Namco163Mapper, CHR_BANK_SIZE, PRG_BANK_SIZE};
use krankulator_core::savestate::{SavestateReader, SavestateWriter};

fn make_mapper(num_prg_16k: usize, num_chr_8k: usize) -> Namco163Mapper {
    let mut prg = Vec::new();
    for i in 0..num_prg_16k {
        let mut bank = [0u8; 16384];
        bank[0] = (i * 2) as u8;
        bank[PRG_BANK_SIZE] = (i * 2 + 1) as u8;
        prg.push(bank);
    }

    let mut chr = Vec::new();
    for i in 0..num_chr_8k {
        let mut bank = [0u8; 8192];
        for k in 0..8 {
            bank[k * CHR_BANK_SIZE] = (i * 8 + k) as u8;
        }
        chr.push(bank);
    }

    Namco163Mapper::new(0, prg, chr, false, None, 0)
}

fn make_chr_ram_mapper(num_prg_16k: usize) -> Namco163Mapper {
    let mut prg = Vec::new();
    for i in 0..num_prg_16k {
        let mut bank = [0u8; 16384];
        bank[0] = (i * 2) as u8;
        prg.push(bank);
    }
    Namco163Mapper::new(0, prg, vec![], false, None, 0)
}

#[test]
fn namco163_test_prg_banking() {
    let mut m = make_mapper(8, 1);

    assert_eq!(m.cpu_read(0x8000), 0);
    assert_eq!(m.cpu_read(0xA000), 1);
    assert_eq!(m.cpu_read(0xC000), 2);
    assert_eq!(m.cpu_read(0xE000), (8 * 2 - 1));

    m.cpu_write(0xE000, 5);
    assert_eq!(m.cpu_read(0x8000), 5);

    m.cpu_write(0xE800, 7);
    assert_eq!(m.cpu_read(0xA000), 7);

    m.cpu_write(0xF000, 10);
    assert_eq!(m.cpu_read(0xC000), 10);
}

#[test]
fn namco163_test_chr_banking() {
    let mut m = make_mapper(2, 4);

    m.cpu_write(0x8000, 10);
    assert_eq!(m.ppu_read(0x0000), 10);

    m.cpu_write(0x8800, 20);
    assert_eq!(m.ppu_read(0x0400), 20);

    m.cpu_write(0xB800, 30);
    assert_eq!(m.ppu_read(0x1C00), 30);
}

#[test]
fn test_nametable_ciram() {
    let mut m = make_mapper(2, 1);

    m.cpu_write(0xC000, 0xE0);
    m.cpu_write(0xC800, 0xE1);
    m.cpu_write(0xD000, 0xE0);
    m.cpu_write(0xD800, 0xE1);

    m.ppu_write(0x2000, 0xAA);
    assert_eq!(m.ppu_read(0x2000), 0xAA);
    assert_eq!(m.ppu_read(0x2800), 0xAA);

    m.ppu_write(0x2400, 0xBB);
    assert_eq!(m.ppu_read(0x2400), 0xBB);
    assert_eq!(m.ppu_read(0x2C00), 0xBB);
}

#[test]
fn test_nametable_chr_rom() {
    let mut m = make_mapper(2, 4);

    m.cpu_write(0xC000, 5);
    let val = m.ppu_read(0x2000);
    assert_eq!(val, 5);
}

#[test]
fn test_irq_counter() {
    let mut m = make_mapper(2, 1);

    m.cpu_write(0x5000, 0xFD);
    m.cpu_write(0x5800, 0xFF);
    assert!(!m.poll_irq());

    m.cpu_cycle(0);
    assert!(!m.poll_irq());

    m.cpu_cycle(0);
    assert!(m.poll_irq());

    m.cpu_write(0x5000, 0);
    assert!(!m.poll_irq());
}

#[test]
fn test_sound_ram_readwrite() {
    let mut m = make_mapper(2, 1);

    m.cpu_write(0xF800, 0x80 | 0x10);
    m.cpu_write(0x4800, 0xAB);
    m.cpu_write(0x4800, 0xCD);

    m.cpu_write(0xF800, 0x10);
    let val = m.cpu_read(0x4800);
    assert_eq!(val, 0xAB);

    m.cpu_write(0xF800, 0x80 | 0x10);
    let val = m.cpu_read(0x4800);
    assert_eq!(val, 0xAB);
    let val = m.cpu_read(0x4800);
    assert_eq!(val, 0xCD);
}

#[test]
fn test_wram_protect() {
    let mut m = make_mapper(2, 1);

    m.cpu_write(0xF800, 0x00);
    m.cpu_write(0x6000, 0xAA);
    assert_eq!(m.cpu_read(0x6000), 0);

    m.cpu_write(0xF800, 0x40);
    m.cpu_write(0x6000, 0xAA);
    assert_eq!(m.cpu_read(0x6000), 0xAA);

    m.cpu_write(0xF800, 0x50);
    m.cpu_write(0x6000, 0xBB);
    assert_eq!(m.cpu_read(0x6000), 0xAA);
}

#[test]
fn test_chr_ram_enable() {
    let mut m = make_chr_ram_mapper(2);

    m.cpu_write(0xE800, 0x00);
    m.cpu_write(0x8000, 0xE0);

    m.ppu_write(0x0000, 0x42);
    assert_eq!(m.ppu_read(0x0000), 0x42);
}

#[test]
fn namco163_test_savestate_roundtrip() {
    let mut m = make_mapper(4, 2);
    m.cpu_write(0xE000, 3);
    m.cpu_write(0x8000, 10);
    m.cpu_write(0xC000, 0xE0);
    m.ppu_write(0x2000, 0xAB);

    m.cpu_write(0xF800, 0x80);
    m.cpu_write(0x4800, 0xDE);

    let mut w = SavestateWriter::new();
    m.save_state(&mut w);
    let data = w.finish();

    let mut m2 = make_mapper(4, 2);
    let mut r = SavestateReader::new(&data).unwrap();
    m2.load_state(&mut r).unwrap();

    assert_eq!(m2.cpu_read(0x8000), m.cpu_read(0x8000));
    assert_eq!(m2.ppu_read(0x0000), m.ppu_read(0x0000));
    assert_eq!(m2.ppu_read(0x2000), m.ppu_read(0x2000));

    m2.cpu_write(0xF800, 0x00);
    let val = m2.cpu_read(0x4800);
    assert_eq!(val, 0xDE);
}

/// One active channel (7) with a 4-sample wave, frequency 1.0 sample per
/// step, volume 15; the wave's second sample is 3.
fn make_sounding_mapper() -> Namco163Mapper {
    let mut m = make_mapper(2, 1);
    m.cpu_write(0xF800, 0x80 | 0x78);
    for b in [0x00u8, 0x00, 0x00, 0x00, 0xFD, 0x00, 0x00, 0x0F] {
        m.cpu_write(0x4800, b);
    }
    m.cpu_write(0x4800, 0x3A);
    m
}

#[test]
fn namco163_channel_steps_every_fifteen_cycles() {
    let mut m = make_sounding_mapper();
    for _ in 0..14 {
        assert!(m.cpu_cycle(0).is_none());
    }
    let s = m.cpu_cycle(0).expect("the fifteenth cycle steps a channel");
    assert_eq!(s.level, (3 - 8) * 15);
    assert_eq!(s.active_channels, 1);
    // The phase advanced by one sample and was stored back.
    assert_eq!(m.sound_ram[0x79], 0);
    assert_eq!(m.sound_ram[0x7B], 0);
    assert_eq!(m.sound_ram[0x7D], 1);
    assert_eq!(m.audio_channel_index, 7);
    assert_eq!(m.audio_timer, 0);
}

#[test]
fn namco163_phase_wraps_at_wave_length() {
    let mut m = make_sounding_mapper();
    let mut levels = Vec::new();
    for _ in 0..(15 * 4) {
        if let Some(s) = m.cpu_cycle(0) {
            levels.push(s.level);
        }
    }
    // Samples 1, 2, 3, then back to 0: 3, 0, 0, 10 less the midpoint, times 15.
    assert_eq!(levels, vec![-75, -120, -120, 30]);
    assert_eq!(m.sound_ram[0x7D], 0);
}

#[test]
fn namco163_sound_disable_stops_the_channels() {
    let mut m = make_sounding_mapper();
    m.cpu_write(0xE000, 0x40);
    for _ in 0..30 {
        assert!(m.cpu_cycle(0).is_none());
    }
    assert_eq!(m.sound_ram[0x7D], 0);
}
