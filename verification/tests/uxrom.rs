use krankulator_core::mapper::uxrom::{UxROMMapper, UXROM_PRG_BANK_SIZE};

#[test]
fn test_uxrom_bank_switching() {
    let bank1 = [1; UXROM_PRG_BANK_SIZE];
    let bank2 = [2; UXROM_PRG_BANK_SIZE];
    let bank3 = [3; UXROM_PRG_BANK_SIZE];

    let mut mapper = UxROMMapper::new(0, vec![bank1, bank2, bank3]);

    assert_eq!(mapper.cpu_read(0x8000), 1);
    assert_eq!(mapper.cpu_read(0xC000), 3);

    mapper.cpu_write(0x8000, 1);
    assert_eq!(mapper.cpu_read(0x8000), 2);
    assert_eq!(mapper.cpu_read(0xC000), 3);

    mapper.cpu_write(0x8000, 2);
    assert_eq!(mapper.cpu_read(0x8000), 3);
    assert_eq!(mapper.cpu_read(0xC000), 3);
}

#[test]
fn test_uxrom_chr_ram_write() {
    let bank1 = [0; UXROM_PRG_BANK_SIZE];
    let mut mapper = UxROMMapper::new(0, vec![bank1]);

    mapper.ppu_write(0x0100, 0x42);
    assert_eq!(mapper.ppu_read(0x0100), 0x42);

    mapper.ppu_write(0x1FFF, 0x84);
    assert_eq!(mapper.ppu_read(0x1FFF), 0x84);
}

#[test]
fn test_uxrom_mirroring() {
    let bank1 = [0; UXROM_PRG_BANK_SIZE];

    let mut mapper_h = UxROMMapper::new(0, vec![bank1]);
    let mut mapper_v = UxROMMapper::new(1, vec![bank1]);

    mapper_h.ppu_write(0x2000, 0x10);
    mapper_v.ppu_write(0x2000, 0x20);

    assert_eq!(mapper_h.ppu_read(0x2400), 0x10);
    assert_eq!(mapper_v.ppu_read(0x2800), 0x20);
}

#[test]
fn uxrom_ram_mirrors_every_2k() {
    let mut mapper = UxROMMapper::new(0, vec![[7; UXROM_PRG_BANK_SIZE]]);
    mapper.cpu_write(0x0801, 0x5A);
    assert_eq!(mapper.cpu_read(0x0001), 0x5A);
    assert_eq!(mapper.cpu_read(0x1801), 0x5A);
    assert_eq!(mapper.mapper_id(), 2);
    assert!(!mapper.poll_irq());
}

#[test]
fn uxrom_bank_select_wraps() {
    let mut mapper = UxROMMapper::new(0, vec![[1; UXROM_PRG_BANK_SIZE], [2; UXROM_PRG_BANK_SIZE], [3; UXROM_PRG_BANK_SIZE]]);
    mapper.cpu_write(0xFFFF, 4);
    assert_eq!(mapper.cpu_read(0x8000), 2);
    assert_eq!(mapper.selected_bank, 1);
}
