use krankulator_core::bus::NametableMirror;
use krankulator_core::savestate::{SavestateReader, SavestateWriter};
use krankulator_core::mapper::mmc4::{MMC4Mapper, PRG_BANK_SIZE, PRG_RAM_8K};


fn make_mapper(prg_16k_count: usize, chr_8k_count: usize) -> MMC4Mapper {
    let mut prg_banks = Vec::new();
    for i in 0..prg_16k_count {
        let mut bank = [0u8; PRG_BANK_SIZE];
        bank[0] = i as u8;
        prg_banks.push(bank);
    }
    let mut chr_banks = Vec::new();
    for i in 0..chr_8k_count {
        let mut bank = [0u8; 8192];
        for b in 0..4096 {
            bank[b] = (i * 2) as u8;
        }
        for b in 4096..8192 {
            bank[b] = (i * 2 + 1) as u8;
        }
        chr_banks.push(bank);
    }
    MMC4Mapper::new(0x01, prg_banks, chr_banks, false, None)
}

#[test]
fn test_prg_banking_16k() {
    let mut m = make_mapper(8, 16);
    m.cpu_write(0xA000, 3);
    assert_eq!(m.prg_bank_idx, 3);

    // Verify switchable bank covers $8000-$BFFF
    m.prg_banks[3][0] = 0xAA;
    m.prg_banks[3][PRG_BANK_SIZE - 1] = 0xBB;
    assert_eq!(m.cpu_read(0x8000), 0xAA);
    assert_eq!(m.cpu_read(0xBFFF), 0xBB);
}

#[test]
fn test_fixed_bank_last() {
    let mut m = make_mapper(8, 16);
    m.prg_banks[7][0] = 0xCC;
    assert_eq!(m.cpu_read(0xC000), 0xCC);
}

#[test]
fn test_prg_ram() {
    let mut m = make_mapper(8, 16);
    m.cpu_write(0x6000, 0x42);
    assert_eq!(m.cpu_read(0x6000), 0x42);
    m.cpu_write(0x7FFF, 0x99);
    assert_eq!(m.cpu_read(0x7FFF), 0x99);
}

#[test]
fn test_latch_left_range_trigger() {
    let mut m = make_mapper(8, 16);

    // MMC4 triggers on range $0FD8-$0FDF for left half
    for addr in 0x0FD8..=0x0FDF {
        m.latches[0] = 1;
        m.ppu_fetch(addr, 0);
        assert_eq!(m.latches[0], 0, "addr {addr:#06X} should trigger left FD");
    }

    for addr in 0x0FE8..=0x0FEF {
        m.latches[0] = 0;
        m.ppu_fetch(addr, 0);
        assert_eq!(m.latches[0], 1, "addr {addr:#06X} should trigger left FE");
    }
}

#[test]
fn test_sram_battery() {
    let sram = vec![0x42; PRG_RAM_8K];
    let m = MMC4Mapper::new(
        0x01,
        vec![[0; PRG_BANK_SIZE]; 2],
        vec![[0; 8192]; 2],
        true,
        Some(sram),
    );
    assert_eq!(m.sram_data().unwrap()[0], 0x42);
}

#[test]
fn mmc4_test_savestate_roundtrip() {
    let mut m = make_mapper(8, 16);
    m.cpu_write(0xA000, 5);
    m.cpu_write(0xB000, 3);
    m.cpu_write(0xC000, 7);
    m.cpu_write(0xF000, 1);
    m.cpu_write(0x6000, 0x42);
    m.ppu_fetch(0x0FD8, 0);

    let mut w = SavestateWriter::new();
    m.save_state(&mut w);

    let mut m2 = make_mapper(8, 16);
    let data = w.finish();
    let mut r = SavestateReader::new(&data).unwrap();
    m2.load_state(&mut r).unwrap();

    assert_eq!(m2.prg_bank_idx, 5);
    assert_eq!(m2.chr_regs[0][0], 3);
    assert_eq!(m2.chr_regs[0][1], 7);
    assert_eq!(m2.latches[0], 0);
    assert_eq!(m2.mirroring, NametableMirror::Horizontal);
    assert_eq!(m2.cpu_read(0x6000), 0x42);
}

