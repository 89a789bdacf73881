use krankulator_core::bus::NametableMirror;
use krankulator_core::mapper::mmc2::MMC2Mapper;
use krankulator_core::mapper::nes_event::{NesEventMapper, PRG_BANK_SIZE as EVENT_PRG_BANK_SIZE};
use krankulator_core::mapper::uxrom::{UxROMMapper, UXROM_PRG_BANK_SIZE};
use krankulator_core::mapper::vrc2_4::Vrc2_4Mapper;
use krankulator_core::savestate::{SavestateReader, SavestateWriter, StateError};

fn uxrom() -> UxROMMapper {
    UxROMMapper::new(
        0,
        vec![[1; UXROM_PRG_BANK_SIZE], [2; UXROM_PRG_BANK_SIZE], [3; UXROM_PRG_BANK_SIZE]],
    )
}

fn mmc2() -> MMC2Mapper {
    let prg: Vec<[u8; 16384]> = (0..4u8).map(|i| [i; 16384]).collect();
    let chr: Vec<[u8; 8192]> = (0..4u8).map(|i| [i; 8192]).collect();
    MMC2Mapper::new(0, prg, chr)
}

#[test]
fn test_uxrom_savestate_roundtrip() {
    let mut m = uxrom();
    m.cpu_write(0x8000, 1);
    m.cpu_write(0x0123, 0x5A);
    m.ppu_write(0x2001, 0x77);
    let mut w = SavestateWriter::new();
    m.save_state(&mut w);
    let data = w.finish();

    let mut m2 = uxrom();
    let mut r = SavestateReader::new(&data).unwrap();
    m2.load_state(&mut r).unwrap();
    assert_eq!(m2.selected_bank, 1);
    assert_eq!(m2.cpu_read(0x8000), 2);
    assert_eq!(m2.cpu_read(0x0123), 0x5A);
    assert_eq!(m2.ppu_read(0x2001), 0x77);
    assert_eq!(r.pos, data.len());
}

#[test]
fn test_truncated_state_is_refused_and_changes_nothing() {
    let mut m = mmc2();
    m.cpu_write(0xA000, 3);
    let mut w = SavestateWriter::new();
    m.save_state(&mut w);
    let mut data = w.finish();
    data.pop();

    let mut m2 = mmc2();
    let mut r = SavestateReader::new(&data).unwrap();
    assert_eq!(m2.load_state(&mut r), Err(StateError::UnexpectedEof));
    assert_eq!(m2.prg_bank_idx, 0);
    assert_eq!(r.pos, 4);
}

#[test]
fn test_bad_mirroring_code_is_refused() {
    let m = mmc2();
    let mut w = SavestateWriter::new();
    m.save_state(&mut w);
    let mut data = w.finish();
    // Header, CPU RAM, PRG bank, four CHR registers, two latches, then mirroring.
    let at = 4 + 0x800 + 7;
    assert!(data[at] <= 3);
    data[at] = 9;
    let mut m2 = mmc2();
    let mut r = SavestateReader::new(&data).unwrap();
    assert_eq!(m2.load_state(&mut r), Err(StateError::InvalidValue));
    assert_eq!(m2.mirroring, NametableMirror::Horizontal);
}

#[test]
fn test_bad_latch_is_refused() {
    let m = mmc2();
    let mut w = SavestateWriter::new();
    m.save_state(&mut w);
    let mut data = w.finish();
    data[4 + 0x800 + 5] = 2;
    let mut m2 = mmc2();
    let mut r = SavestateReader::new(&data).unwrap();
    assert_eq!(m2.load_state(&mut r), Err(StateError::InvalidValue));
    assert_eq!(m2.latches, [1, 1]);
}

#[test]
fn test_nes_event_savestate_roundtrip() {
    let prg: Vec<[u8; EVENT_PRG_BANK_SIZE]> = (0..16u8).map(|i| [i; EVENT_PRG_BANK_SIZE]).collect();
    let mut m = NesEventMapper::new(0, prg.clone());
    m.cpu_write(0x0042, 0x99);
    m.cpu_write(0x8000, 0x01);
    let mut w = SavestateWriter::new();
    m.save_state(&mut w);
    let data = w.finish();

    let mut m2 = NesEventMapper::new(0, prg);
    let mut r = SavestateReader::new(&data).unwrap();
    m2.load_state(&mut r).unwrap();
    assert_eq!(m2.cpu_read(0x0042), 0x99);
    assert_eq!(m2.shift_register, m.shift_register);
    assert_eq!(m2.shift_count, m.shift_count);
}

#[test]
fn test_vrc2_4_savestate_restores_chr_ram() {
    let prg: Vec<[u8; 16384]> = (0..4u8).map(|i| [i; 16384]).collect();
    let mut m = Vrc2_4Mapper::new(0, prg.clone(), vec![], false, None, 23, 0);
    m.ppu_write(0x0010, 0xAB);
    m.cpu_write(0x8000, 2);
    let mut w = SavestateWriter::new();
    m.save_state(&mut w);
    let data = w.finish();

    let mut m2 = Vrc2_4Mapper::new(0, prg, vec![], false, None, 23, 0);
    let mut r = SavestateReader::new(&data).unwrap();
    m2.load_state(&mut r).unwrap();
    assert_eq!(m2.ppu_read(0x0010), 0xAB);
    assert_eq!(m2.prg_bank_0, m.prg_bank_0);
    assert_eq!(m2.irq_prescaler, m.irq_prescaler);
}
