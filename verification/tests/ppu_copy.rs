use krankulator_core::mapper::action53::{Action53Mapper, PRG_16K};
use krankulator_core::mapper::daou::{DaouMapper, CHR_BANK_SIZE};
use krankulator_core::mapper::front_fareast::FrontFareastMapper;
use krankulator_core::mapper::mmc4::MMC4Mapper;
use krankulator_core::mapper::mmc5::MMC5Mapper;

fn make_daou() -> DaouMapper {
    let prg = vec![[0u8; 16384]; 2];
    let mut chr = Vec::new();
    for i in 0..2u8 {
        let mut bank = [0u8; 8192];
        for k in 0..8192 {
            bank[k] = (k % 251) as u8 ^ i;
        }
        chr.push(bank);
    }
    DaouMapper::new(prg, chr)
}

#[test]
fn ppu_copy_daou_matches_reads_within_a_page() {
    let m = make_daou();
    let mut dest = vec![0xEEu8; 16];
    m.ppu_copy(0x0010, &mut dest, 16);
    for i in 0..16u16 {
        assert_eq!(dest[i as usize], m.ppu_read(0x0010 + i));
    }
}

#[test]
fn ppu_copy_daou_stops_at_the_page_end() {
    let m = make_daou();
    let mut dest = vec![0xEEu8; 16];
    m.ppu_copy((CHR_BANK_SIZE - 4) as u16, &mut dest, 16);
    for i in 0..4u16 {
        assert_eq!(dest[i as usize], m.ppu_read((CHR_BANK_SIZE as u16 - 4) + i));
    }
    assert!(dest[4..].iter().all(|&b| b == 0xEE));
}

#[test]
fn ppu_copy_nametable_reads_mirrored_ram() {
    let mut m = make_daou();
    m.ppu_write(0x2000, 0x11);
    m.ppu_write(0x2001, 0x22);
    let mut dest = vec![0u8; 2];
    m.ppu_copy(0x2000, &mut dest, 2);
    assert_eq!(dest, vec![0x11, 0x22]);
}

#[test]
fn ppu_copy_front_fareast_chr_ram() {
    let prg = vec![[0u8; 16384]; 2];
    let mut m = FrontFareastMapper::new(0, prg, vec![]);
    m.ppu_write(0x0100, 0xAB);
    m.ppu_write(0x0101, 0xCD);
    let mut dest = vec![0u8; 3];
    m.ppu_copy(0x0100, &mut dest, 2);
    assert_eq!(dest, vec![0xAB, 0xCD, 0]);
}

#[test]
fn ppu_copy_action53_skips_a_run_past_chr_ram() {
    let mut m = Action53Mapper::new(0, vec![[0u8; PRG_16K]; 2]);
    // Select the last 8KB CHR bank through register 0.
    m.cpu_write(0x5000, 0x00);
    m.cpu_write(0x8000, 0x03);
    m.ppu_write(0x0000, 0x77);
    let mut dest = vec![0x55u8; 8];
    m.ppu_copy(0x1FFC, &mut dest, 8);
    assert_eq!(dest, vec![0x55u8; 8]);
    let mut dest2 = vec![0x55u8; 4];
    m.ppu_copy(0x0000, &mut dest2, 4);
    assert_eq!(dest2, vec![0x77, 0, 0, 0]);
}

#[test]
fn ppu_copy_mmc4_copies_from_the_latched_bank() {
    let prg = vec![[0u8; 16384]; 2];
    let mut chr = Vec::new();
    let mut bank = [0u8; 8192];
    for k in 0..8192 {
        bank[k] = (k / 4096) as u8 + 1;
    }
    chr.push(bank);
    let m = MMC4Mapper::new(0, prg, chr, false, None);
    let mut dest = vec![0u8; 4];
    m.ppu_copy(0x0000, &mut dest, 4);
    assert_eq!(dest, vec![m.ppu_read(0x0000); 4]);
}

#[test]
fn ppu_copy_mmc5_matches_reads() {
    let mut prg = Vec::new();
    prg.push([0u8; 16384]);
    let mut chr = Vec::new();
    let mut bank = [0u8; 8192];
    for k in 0..8192 {
        bank[k] = (k % 256) as u8;
    }
    chr.push(bank);
    let m = MMC5Mapper::new(0, prg, chr, false, None);
    let mut dest = vec![0u8; 8];
    m.ppu_copy(0x03FC, &mut dest, 8);
    for i in 0..8u16 {
        assert_eq!(dest[i as usize], m.ppu_read(0x03FC + i));
    }
}

#[test]
fn mmc4_battery_ram_fills_through_sram_data_mut() {
    let prg = vec![[0u8; 16384]; 2];
    let chr = vec![[0u8; 8192]; 1];
    let mut m = MMC4Mapper::new(0, prg, chr, true, None);
    if let Some(ram) = m.sram_data_mut() {
        ram[0] = 0x42;
        ram[1] = 0x43;
    }
    assert_eq!(m.cpu_read(0x6000), 0x42);
    assert_eq!(m.cpu_read(0x6001), 0x43);
    let mut plain = MMC4Mapper::new(0, vec![[0u8; 16384]; 2], vec![[0u8; 8192]; 1], false, None);
    assert!(plain.sram_data_mut().is_none());
}
