use krankulator_core::savestate::{SavestateReader, SavestateWriter};
use krankulator_core::bus::NametableMirror;
use krankulator_core::mapper::bandai_fcg::{BandaiFcgMapper, PRG_BANK_SIZE};
use krankulator_core::mapper::eeprom::{Eeprom24C02, EepromState, EEPROM_SIZE_24C02};

const CHR_BANK_SIZE_8K: usize = 8192;



fn make_mapper_fcg(prg_16k_count: usize, chr_8k_count: usize) -> BandaiFcgMapper {
    let mut prg_banks = Vec::new();
    for i in 0..prg_16k_count {
        let mut bank = [0u8; PRG_BANK_SIZE];
        bank[0] = i as u8;
        prg_banks.push(bank);
    }
    let mut chr_banks = Vec::new();
    for i in 0..chr_8k_count {
        let mut bank = [0u8; CHR_BANK_SIZE_8K];
        for k in 0..8 {
            bank[k * 1024] = (i * 8 + k) as u8;
        }
        chr_banks.push(bank);
    }
    BandaiFcgMapper::new(0x01, prg_banks, chr_banks, 4, None)
}

fn make_mapper_lz93d50(prg_16k_count: usize, chr_8k_count: usize) -> BandaiFcgMapper {
    let mut prg_banks = Vec::new();
    for i in 0..prg_16k_count {
        let mut bank = [0u8; PRG_BANK_SIZE];
        bank[0] = i as u8;
        prg_banks.push(bank);
    }
    let mut chr_banks = Vec::new();
    for i in 0..chr_8k_count {
        let mut bank = [0u8; CHR_BANK_SIZE_8K];
        for k in 0..8 {
            bank[k * 1024] = (i * 8 + k) as u8;
        }
        chr_banks.push(bank);
    }
    BandaiFcgMapper::new(
        0x01,
        prg_banks,
        chr_banks,
        5,
        Some(vec![0xFF; EEPROM_SIZE_24C02]),
    )
}

#[test]
fn test_fcg_prg_banking() {
    let mut m = make_mapper_fcg(8, 8);
    m.cpu_write(0x6008, 3);
    assert_eq!(m.prg_bank_idx, 3);
}

#[test]
fn test_fcg_chr_banking() {
    let mut m = make_mapper_fcg(8, 32);
    m.cpu_write(0x6000, 5);
    assert_eq!(m.chr_regs[0], 5);
    m.cpu_write(0x6003, 10);
    assert_eq!(m.chr_regs[3], 10);
}

#[test]
fn test_fcg_mirroring() {
    let mut m = make_mapper_fcg(8, 8);
    m.cpu_write(0x6009, 0);
    assert_eq!(m.mirroring, NametableMirror::Vertical);
    m.cpu_write(0x6009, 1);
    assert_eq!(m.mirroring, NametableMirror::Horizontal);
    m.cpu_write(0x6009, 2);
    assert_eq!(m.mirroring, NametableMirror::Lower);
    m.cpu_write(0x6009, 3);
    assert_eq!(m.mirroring, NametableMirror::Higher);
}

#[test]
fn test_fcg_irq_direct_counter() {
    let mut m = make_mapper_fcg(8, 8);
    // FCG writes directly to counter
    m.cpu_write(0x600B, 0x03); // low byte
    m.cpu_write(0x600C, 0x00); // high byte
    m.cpu_write(0x600A, 0x01); // enable

    assert!(!m.irq_pending);
    m.cpu_cycle(0); // 3 -> 2
    m.cpu_cycle(0); // 2 -> 1
    m.cpu_cycle(0); // 1 -> 0
    assert!(!m.irq_pending);
    m.cpu_cycle(0); // 0 -> fires
    assert!(m.irq_pending);
}

#[test]
fn test_lz93d50_prg_banking() {
    let mut m = make_mapper_lz93d50(8, 8);
    m.cpu_write(0x8008, 5);
    assert_eq!(m.prg_bank_idx, 5);
}

#[test]
fn test_lz93d50_irq_latched() {
    let mut m = make_mapper_lz93d50(8, 8);
    // LZ93D50 writes to latch, copies on enable
    m.cpu_write(0x800B, 0x03); // latch low
    m.cpu_write(0x800C, 0x00); // latch high
    assert_eq!(m.irq_counter, 0); // counter unchanged
    m.cpu_write(0x800A, 0x01); // copies latch to counter + enable
    assert_eq!(m.irq_counter, 3);

    m.cpu_cycle(0);
    m.cpu_cycle(0);
    m.cpu_cycle(0);
    assert!(!m.irq_pending);
    m.cpu_cycle(0);
    assert!(m.irq_pending);
}

#[test]
fn test_lz93d50_eeprom_read() {
    let mut m = make_mapper_lz93d50(8, 8);
    // Initial EEPROM data is 0xFF
    // Read $6000 should return EEPROM output on bit 4
    let val = m.cpu_read(0x6000);
    assert_eq!(val & 0x10, 0x10); // output_bit defaults to true
}

#[test]
fn test_eeprom_write_and_read() {
    let mut eeprom = Eeprom24C02::new(None);

    // Helper to clock a bit
    fn clock_bit(eeprom: &mut Eeprom24C02, bit: bool) {
        eeprom.write(bit, false); // SDA setup
        eeprom.write(bit, true); // SCL rise - clock in
        eeprom.write(bit, false); // SCL fall
    }

    fn start(eeprom: &mut Eeprom24C02) {
        eeprom.write(true, true);
        eeprom.write(false, true); // SDA fall while SCL high
        eeprom.write(false, false);
    }

    fn stop(eeprom: &mut Eeprom24C02) {
        eeprom.write(false, true);
        eeprom.write(true, true); // SDA rise while SCL high
    }

    fn clock_byte(eeprom: &mut Eeprom24C02, byte: u8) {
        for i in (0..8).rev() {
            clock_bit(eeprom, (byte >> i) & 1 != 0);
        }
        // Read ACK
        clock_bit(eeprom, true);
    }

    // Write 0x42 to address 0x00
    start(&mut eeprom);
    clock_byte(&mut eeprom, 0xA0); // device addr, write
    clock_byte(&mut eeprom, 0x00); // word addr
    clock_byte(&mut eeprom, 0x42); // data
    stop(&mut eeprom);

    assert_eq!(eeprom.data[0], 0x42);
}

#[test]
fn test_eeprom_ack_visible_during_9th_clock() {
    let mut eeprom = Eeprom24C02::new(None);

    fn start(eeprom: &mut Eeprom24C02) {
        eeprom.write(true, true);
        eeprom.write(false, true);
        eeprom.write(false, false);
    }

    // Send START
    start(&mut eeprom);

    // Clock 8 bits of device address 0xA0 (write mode)
    for i in (0..8).rev() {
        let bit = (0xA0u8 >> i) & 1 != 0;
        eeprom.write(bit, false);
        eeprom.write(bit, true);
        eeprom.write(bit, false);
    }

    // After 8th bit clocked, output_bit should be false (ACK ready)
    assert!(!eeprom.output_bit, "ACK should be asserted after 8 bits");

    // 9th clock rising edge: ACK must remain visible
    eeprom.write(true, false); // SDA released by master
    eeprom.write(true, true); // SCL rise — game reads here
    assert!(
        !eeprom.output_bit,
        "ACK must remain visible while SCL is high on 9th clock"
    );

    // SCL falling edge: now state transitions
    eeprom.write(true, false);
    assert_eq!(eeprom.state, EepromState::WordAddr);
}

#[test]
fn test_fcg_registers_at_6000() {
    let mut m = make_mapper_fcg(8, 8);
    // FCG: writes to $6000-$600D are register writes
    m.cpu_write(0x6008, 2);
    assert_eq!(m.prg_bank_idx, 2);
    // $8000 writes should be ignored for FCG
    m.cpu_write(0x8008, 5);
    assert_eq!(m.prg_bank_idx, 2);
}

#[test]
fn test_lz93d50_registers_at_8000() {
    let mut m = make_mapper_lz93d50(8, 8);
    // LZ93D50: writes to $8000-$800D are register writes
    m.cpu_write(0x8008, 2);
    assert_eq!(m.prg_bank_idx, 2);
    // $6000 writes should be ignored for LZ93D50 (reads return EEPROM)
    m.cpu_write(0x6008, 5);
    assert_eq!(m.prg_bank_idx, 2);
}

#[test]
fn bandai_fcg_test_savestate_roundtrip() {
    let mut m = make_mapper_lz93d50(8, 8);
    m.cpu_write(0x8008, 3);
    m.cpu_write(0x8000, 7);
    m.cpu_write(0x8009, 1);
    m.irq_pending = true;

    let mut w = SavestateWriter::new();
    m.save_state(&mut w);

    let mut m2 = make_mapper_lz93d50(8, 8);
    let data = w.finish();
    let mut r = SavestateReader::new(&data).unwrap();
    m2.load_state(&mut r).unwrap();

    assert_eq!(m2.prg_bank_idx, 3);
    assert_eq!(m2.chr_regs[0], 7);
    assert_eq!(m2.mirroring, NametableMirror::Horizontal);
    assert!(m2.irq_pending);
}


#[test]
fn eeprom_runs_on_from_a_large_bit_count() {
    let mut eeprom = Eeprom24C02::new(None);
    eeprom.state = EepromState::DeviceAddr;
    eeprom.bit_count = 200;
    eeprom.shift_reg = 0xA0;
    eeprom.write(true, true);
    assert_eq!(eeprom.bit_count, 201);
    eeprom.write(true, false);
    assert_eq!(eeprom.bit_count, 0);
    assert_eq!(eeprom.state, EepromState::WordAddr);
}
