use krankulator_core::savestate::{SavestateReader, SavestateWriter};
use krankulator_core::bus::NametableMirror;
use krankulator_core::mapper::mmc2::MMC2Mapper;


fn make_mapper(prg_16k_count: usize, chr_8k_count: usize) -> MMC2Mapper {
    let mut prg_banks = Vec::new();
    for i in 0..prg_16k_count {
        let mut bank = [0u8; 16 * 1024];
        bank[0] = i as u8;
        prg_banks.push(bank);
    }
    let mut chr_banks = Vec::new();
    for i in 0..chr_8k_count {
        let mut bank = [0u8; 8192];
        // Fill low 4K half with i*2, high 4K half with i*2+1
        for b in 0..4096 {
            bank[b] = (i * 2) as u8;
        }
        for b in 4096..8192 {
            bank[b] = (i * 2 + 1) as u8;
        }
        chr_banks.push(bank);
    }
    MMC2Mapper::new(0x01, prg_banks, chr_banks)
}

#[test]
fn mmc2_test_prg_banking() {
    let mut m = make_mapper(8, 16);
    // 8 x 16KB = 16 x 8KB banks
    // $8000-$9FFF = switchable, $A000+ = fixed to last 3

    // Write PRG bank 5 to $A000
    m.cpu_write(0xA000, 5);
    assert_eq!(m.prg_bank_idx, 5);

    // Fixed banks
    assert_eq!(m.prg_banks.len(), 16);
    // $A000 = bank 13, $C000 = bank 14, $E000 = bank 15
}

#[test]
fn test_prg_bank_masking() {
    let mut m = make_mapper(8, 16);
    // 16 8KB banks, mask = 0x0F
    m.cpu_write(0xA000, 0x0F);
    assert_eq!(m.prg_bank_idx, 15);

    // Value > bank count wraps
    m.cpu_write(0xA000, 0x03);
    assert_eq!(m.prg_bank_idx, 3);
}

#[test]
fn test_chr_register_writes() {
    let mut m = make_mapper(8, 16);

    m.cpu_write(0xB000, 3);  // CHR left/FD
    m.cpu_write(0xC000, 7);  // CHR left/FE
    m.cpu_write(0xD000, 10); // CHR right/FD
    m.cpu_write(0xE000, 15); // CHR right/FE

    assert_eq!(m.chr_regs[0][0], 3);
    assert_eq!(m.chr_regs[0][1], 7);
    assert_eq!(m.chr_regs[1][0], 10);
    assert_eq!(m.chr_regs[1][1], 15);
}

#[test]
fn test_chr_register_masking() {
    let mut m = make_mapper(8, 16);

    m.cpu_write(0xB000, 0xFF);
    assert_eq!(m.chr_regs[0][0], 0x1F);
}

#[test]
fn mmc2_test_mirroring_control() {
    let mut m = make_mapper(8, 16);

    m.cpu_write(0xF000, 0);
    assert_eq!(m.mirroring, NametableMirror::Vertical);

    m.cpu_write(0xF000, 1);
    assert_eq!(m.mirroring, NametableMirror::Horizontal);
}

#[test]
fn test_initial_latch_state() {
    let m = make_mapper(8, 16);
    // Both latches start in FE state (index 1)
    assert_eq!(m.latches[0], 1);
    assert_eq!(m.latches[1], 1);
}

#[test]
fn test_latch_left_fd_trigger() {
    let mut m = make_mapper(8, 16);
    m.cpu_write(0xB000, 2);  // FD bank
    m.cpu_write(0xC000, 5);  // FE bank

    // Initial state: latch 0 = FE, so active bank = chr_regs[0][1] = 5
    assert_eq!(m.active_chr_bank(0), 5);

    // Fetch from $0FD8 triggers latch to FD — but deferred
    m.ppu_fetch(0x0FD8, 0);

    // Now latch has been set, but it's applied immediately on next read
    // since check_latch_trigger sets it directly
    assert_eq!(m.latches[0], 0);
    assert_eq!(m.active_chr_bank(0), 2);
}

#[test]
fn test_latch_left_fe_trigger() {
    let mut m = make_mapper(8, 16);
    m.cpu_write(0xB000, 2);  // FD bank
    m.cpu_write(0xC000, 5);  // FE bank

    // Switch to FD first
    m.ppu_fetch(0x0FD8, 0);
    assert_eq!(m.latches[0], 0);

    // Now trigger FE
    m.ppu_fetch(0x0FE8, 0);
    assert_eq!(m.latches[0], 1);
    assert_eq!(m.active_chr_bank(0), 5);
}

#[test]
fn test_latch_left_only_exact_address() {
    let mut m = make_mapper(8, 16);
    m.cpu_write(0xB000, 2);

    // $0FD7 should NOT trigger
    m.ppu_fetch(0x0FD7, 0);
    assert_eq!(m.latches[0], 1);

    // $0FD9 should NOT trigger
    m.ppu_fetch(0x0FD9, 0);
    assert_eq!(m.latches[0], 1);

    // $0FD8 SHOULD trigger
    m.ppu_fetch(0x0FD8, 0);
    assert_eq!(m.latches[0], 0);
}

#[test]
fn test_latch_right_fd_range() {
    let mut m = make_mapper(8, 16);
    m.cpu_write(0xD000, 3);

    // $1FD8-$1FDF should all trigger right latch to FD
    for addr in 0x1FD8..=0x1FDF {
        m.latches[1] = 1; // reset
        m.ppu_fetch(addr, 0);
        assert_eq!(m.latches[1], 0, "addr {:#06X} should trigger right FD latch", addr);
    }

    // $1FD7 should NOT trigger
    m.latches[1] = 1;
    m.ppu_fetch(0x1FD7, 0);
    assert_eq!(m.latches[1], 1);

    // $1FE0 should NOT trigger FD
    m.latches[1] = 1;
    m.ppu_fetch(0x1FE0, 0);
    assert_eq!(m.latches[1], 1);
}

#[test]
fn test_latch_right_fe_range() {
    let mut m = make_mapper(8, 16);
    m.cpu_write(0xE000, 7);

    // $1FE8-$1FEF should all trigger right latch to FE
    for addr in 0x1FE8..=0x1FEF {
        m.latches[1] = 0; // reset to FD
        m.ppu_fetch(addr, 0);
        assert_eq!(m.latches[1], 1, "addr {:#06X} should trigger right FE latch", addr);
    }
}

#[test]
fn test_deferred_latch_reads_old_bank() {
    let mut m = make_mapper(8, 16);

    // Set up distinguishable banks
    m.chr_banks[2][0x0FD8] = 0xAA;
    m.chr_banks[5][0x0FD8] = 0xBB;

    m.cpu_write(0xB000, 2);  // FD bank = 2
    m.cpu_write(0xC000, 5);  // FE bank = 5

    // Initial latch = FE, so active bank for left half = 5
    let val = m.ppu_fetch(0x0FD8, 0);
    // The read should come from the OLD bank (FE=5) since the latch
    // update is deferred
    assert_eq!(val, 0xBB);

    // After the fetch, latch is now FD
    assert_eq!(m.latches[0], 0);
}

#[test]
fn test_no_prg_ram() {
    let mut m = make_mapper(8, 16);
    // Writes to $6000-$7FFF should be ignored
    m.cpu_write(0x6000, 0x42);
    assert_eq!(m.cpu_read(0x6000), 0);
}

#[test]
fn test_register_mirroring() {
    let mut m = make_mapper(8, 16);

    // Writes anywhere in $A000-$AFFF should hit PRG bank register
    m.cpu_write(0xA123, 3);
    assert_eq!(m.prg_bank_idx, 3);

    m.cpu_write(0xAFFF, 7);
    assert_eq!(m.prg_bank_idx, 7);
}

#[test]
fn test_chr_read_through_latch() {
    let mut m = make_mapper(8, 16);

    // Put distinct data in different banks
    m.chr_banks[0][0x100] = 0x11;
    m.chr_banks[1][0x100] = 0x22;

    m.cpu_write(0xB000, 0); // FD bank = 0
    m.cpu_write(0xC000, 1); // FE bank = 1

    // Latch starts at FE (1), so we read bank 1
    assert_eq!(m.ppu_read(0x0100), 0x22);

    // Switch to FD
    m.ppu_fetch(0x0FD8, 0);

    // Now reads from bank 0
    assert_eq!(m.ppu_read(0x0100), 0x11);
}

#[test]
fn test_independent_latches() {
    let mut m = make_mapper(8, 16);

    // Trigger left latch to FD
    m.ppu_fetch(0x0FD8, 0);
    assert_eq!(m.latches[0], 0);
    assert_eq!(m.latches[1], 1); // right unchanged

    // Trigger right latch to FD
    m.ppu_fetch(0x1FD8, 0);
    assert_eq!(m.latches[0], 0); // left unchanged
    assert_eq!(m.latches[1], 0);
}

#[test]
fn mmc2_test_savestate_roundtrip() {
    let mut m = make_mapper(8, 16);
    m.cpu_write(0xA000, 5);
    m.cpu_write(0xB000, 3);
    m.cpu_write(0xC000, 7);
    m.cpu_write(0xD000, 10);
    m.cpu_write(0xE000, 15);
    m.cpu_write(0xF000, 1);
    m.ppu_fetch(0x0FD8, 0); // trigger left latch to FD

    let mut w = SavestateWriter::new();
    m.save_state(&mut w);

    let mut m2 = make_mapper(8, 16);
    let data = w.finish();
    let mut r = SavestateReader::new(&data).unwrap();
    m2.load_state(&mut r).unwrap();

    assert_eq!(m2.prg_bank_idx, 5);
    assert_eq!(m2.chr_regs[0][0], 3);
    assert_eq!(m2.chr_regs[0][1], 7);
    assert_eq!(m2.chr_regs[1][0], 10);
    assert_eq!(m2.chr_regs[1][1], 15);
    assert_eq!(m2.latches[0], 0);
    assert_eq!(m2.latches[1], 1);
    assert_eq!(m2.mirroring, NametableMirror::Horizontal);
}
