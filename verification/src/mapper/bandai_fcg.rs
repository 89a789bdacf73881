//! Bandai FCG (mapper 16): a 16KB switchable PRG bank, eight 1KB CHR banks,
//! mirroring control and a CPU-cycle IRQ counter. FCG boards (submapper 4)
//! take their registers at $6000 and load the counter directly; LZ93D50
//! boards (submapper 5) take them at $8000, load the counter from a latch and
//! carry a 24C02 EEPROM read at $6000.

use vstd::prelude::*;
use crate::bus::{NametableMirror, CPU_RAM_SIZE, VRAM_SIZE, PALETTE_SIZE, RESET_TARGET_ADDR, spec_mirror_addr, mirror_addr, spec_addr_to_page, addr_to_page, spec_mirroring_from_flags, mirroring_from_flags, nt_offset, mirror_nametable_addr, palette_slot, palette_index, word, make_word};
use crate::ppu_bus::{zeroed, filled};
use crate::controller::Controller;
use crate::mapper::common::{new_controllers, copied_into, copy_vec_to_front, copy_bank_to_front};

use crate::savestate::{SavestateWriter, SavestateReader, StateError, enc_u8, enc_bool, enc_u16, dec_u16_at, stored_at, lemma_add_assoc, lemma_stored_split, lemma_stored_u8, lemma_stored_bool, lemma_stored_u16};
use crate::controller::{controllers_bytes, controller_at, save_controllers, take_controllers, lemma_stored_controllers, CONTROLLER_STATE_LEN};
use crate::ppu_bus::{mirror_code, mirror_from_code, mirroring_from_code, save_mirroring, lemma_mirror_code_roundtrip};

verus! {
use crate::mapper::eeprom::{Eeprom24C02, EepromModel, EEPROM_SIZE_24C02, EepromState};

pub const PRG_BANK_SIZE: usize = 16 * 1024;
pub const CHR_BANK_SIZE: usize = 1024;

#[derive(Clone, Copy, Debug, PartialEq, Eq, Structural)]
pub enum BandaiSubmapper {
    Fcg,
    Lz93d50,
}

pub struct BandaiFcgMapper {
    pub cpu_ram: Vec<u8>,
    pub prg_rom: Vec<[u8; PRG_BANK_SIZE]>,
    pub prg_bank_idx: usize,
    pub chr_8k: Vec<[u8; 8192]>,
    pub chr_regs: [usize; 8],
    pub mirroring: NametableMirror,
    pub irq_latch: u16,
    pub irq_counter: u16,
    pub irq_enabled: bool,
    pub irq_pending: bool,
    pub submapper: BandaiSubmapper,
    pub eeprom: Option<Eeprom24C02>,
    pub vram: Vec<u8>,
    pub palette_ram: Vec<u8>,
    pub controllers: [Controller; 2],
}

/// Byte `off` of 1KB CHR page `page` of a set of 8KB banks.
pub open spec fn chr_1k_byte(chr: Seq<[u8; 8192]>, page: int, off: int) -> u8 {
    chr[page / 8][(page % 8) * 1024 + off]
}

/// The mirroring selected by register 9.
pub open spec fn bandai_mirroring(v: u8) -> NametableMirror {
    let m = v & 3;
    if m == 0 {
        NametableMirror::Vertical
    } else if m == 1 {
        NametableMirror::Horizontal
    } else if m == 2 {
        NametableMirror::Lower
    } else {
        NametableMirror::Higher
    }
}

impl BandaiFcgMapper {
    pub open spec fn chr_pages(&self) -> int {
        8 * (self.chr_8k@.len() as int)
    }

    pub open spec fn wf(&self) -> bool {
        &&& self.cpu_ram@.len() == CPU_RAM_SIZE
        &&& self.vram@.len() == VRAM_SIZE
        &&& self.palette_ram@.len() == PALETTE_SIZE
        &&& (self.prg_rom@.len() > 0 ==> self.prg_bank_idx < self.prg_rom@.len())
        &&& 8 * self.chr_8k@.len() <= usize::MAX
        &&& (self.eeprom matches Some(e) ==> e@.wf())
    }

    /// The 1KB page shown in CHR slot `slot`.
    pub open spec fn spec_chr_bank(&self, slot: int) -> int {
        if self.chr_8k@.len() == 0 {
            0
        } else {
            self.chr_regs@[slot] as int % self.chr_pages()
        }
    }

    pub open spec fn spec_cpu_read(&self, addr: u16) -> u8 {
        let a = spec_mirror_addr(addr);
        let page = spec_addr_to_page(a);
        if page == 0x00 || page == 0x10 {
            self.cpu_ram@[a as int]
        } else if (page == 0x60 || page == 0x70) && self.submapper == BandaiSubmapper::Lz93d50 {
            match self.eeprom {
                Some(e) => if e.output_bit { 0x10 } else { 0x00 },
                None => 0,
            }
        } else if a >= 0x8000 && self.prg_rom@.len() == 0 {
            0
        } else if 0x8000 <= a < 0xC000 {
            self.prg_rom@[self.prg_bank_idx as int][a - 0x8000]
        } else if a >= 0xC000 {
            self.prg_rom@[self.prg_rom@.len() - 1][a - 0xC000]
        } else {
            0
        }
    }

    pub open spec fn spec_ppu_read(&self, addr: u16) -> u8 {
        let a = (addr as int) % 0x4000;
        if a >= 0x3F00 {
            self.palette_ram@[palette_slot(a as u16)]
        } else if a < 0x2000 {
            if self.chr_8k@.len() == 0 {
                0
            } else {
                chr_1k_byte(self.chr_8k@, self.spec_chr_bank(a / 1024), a % 1024)
            }
        } else {
            self.vram@[nt_offset(a as u16, self.mirroring)]
        }
    }

    /// What `new` builds from its arguments.
    pub open spec fn built_by_new(flags: u8, prg_banks_16k: Vec<[u8; PRG_BANK_SIZE]>, chr_banks_8k: Vec<[u8; 8192]>, submapper: u8, sram_data: Option<Vec<u8>>, m: BandaiFcgMapper) -> bool {
        &&& (m.wf())
        &&& (m.prg_rom@ == prg_banks_16k@)
        &&& (m.chr_8k@ == chr_banks_8k@)
        &&& (m.prg_bank_idx == 0)
        &&& (forall|i: int| 0 <= i < 8 ==> m.chr_regs@[i] == 0)
        &&& (m.mirroring == spec_mirroring_from_flags(flags))
        &&& (m.irq_latch == 0 && m.irq_counter == 0 && !m.irq_enabled && !m.irq_pending)
        &&& (m.submapper == (if submapper == 4 { BandaiSubmapper::Fcg } else { BandaiSubmapper::Lz93d50 }))
        &&& ((submapper == 4) == (m.eeprom is None))
        &&& (m.eeprom matches Some(e) ==> ({
                &&& e.state == EepromState::Idle
                &&& !e.scl && e.sda_out && e.sda_in && e.output_bit
                &&& e.bit_count == 0 && e.shift_reg == 0 && e.word_addr == 0
                &&& forall|i: int| 0 <= i < EEPROM_SIZE_24C02 ==> #[trigger] e.data@[i] == (match sram_data {
                    Some(d) => if i < d@.len() { d@[i] } else { 0xFFu8 },
                    None => 0xFFu8,
                })
            }))
        &&& (m.cpu_ram@ == Seq::new(CPU_RAM_SIZE as nat, |i: int| 0u8))
        &&& (m.vram@ == Seq::new(VRAM_SIZE as nat, |i: int| 0u8))
        &&& (m.palette_ram@ == Seq::new(PALETTE_SIZE as nat, |i: int| 0x0Fu8))
    }

    /// Submapper 4 is an FCG board; any other number an LZ93D50 with EEPROM
    /// initialized from the saved data.
    pub fn new(flags: u8, prg_banks_16k: Vec<[u8; PRG_BANK_SIZE]>, chr_banks_8k: Vec<[u8; 8192]>, submapper: u8, sram_data: Option<Vec<u8>>) -> (m: BandaiFcgMapper)
        requires
            8 * chr_banks_8k@.len() <= usize::MAX,
        ensures
            m.wf(),
            m.prg_rom@ == prg_banks_16k@,
            m.chr_8k@ == chr_banks_8k@,
            m.prg_bank_idx == 0,
            forall|i: int| 0 <= i < 8 ==> m.chr_regs@[i] == 0,
            m.mirroring == spec_mirroring_from_flags(flags),
            m.irq_latch == 0 && m.irq_counter == 0 && !m.irq_enabled && !m.irq_pending,
            m.submapper == (if submapper == 4 { BandaiSubmapper::Fcg } else { BandaiSubmapper::Lz93d50 }),
            (submapper == 4) == (m.eeprom is None),
            m.eeprom matches Some(e) ==> ({
                &&& e.state == EepromState::Idle
                &&& !e.scl && e.sda_out && e.sda_in && e.output_bit
                &&& e.bit_count == 0 && e.shift_reg == 0 && e.word_addr == 0
                &&& forall|i: int| 0 <= i < EEPROM_SIZE_24C02 ==> #[trigger] e.data@[i] == (match sram_data {
                    Some(d) => if i < d@.len() { d@[i] } else { 0xFFu8 },
                    None => 0xFFu8,
                })
            }),
            m.cpu_ram@ == Seq::new(CPU_RAM_SIZE as nat, |i: int| 0u8),
            m.vram@ == Seq::new(VRAM_SIZE as nat, |i: int| 0u8),
            m.palette_ram@ == Seq::new(PALETTE_SIZE as nat, |i: int| 0x0Fu8),
            Self::built_by_new(flags, prg_banks_16k, chr_banks_8k, submapper, sram_data, m),
    {
        let variant = if submapper == 4 { BandaiSubmapper::Fcg } else { BandaiSubmapper::Lz93d50 };
        let eeprom = if submapper == 4 {
            None
        } else {
            match &sram_data {
                Some(d) => Some(Eeprom24C02::new(Some(d.as_slice()))),
                None => Some(Eeprom24C02::new(None)),
            }
        };
        BandaiFcgMapper {
            cpu_ram: zeroed(CPU_RAM_SIZE),
            prg_rom: prg_banks_16k,
            prg_bank_idx: 0,
            chr_8k: chr_banks_8k,
            chr_regs: [0; 8],
            mirroring: mirroring_from_flags(flags),
            irq_latch: 0,
            irq_counter: 0,
            irq_enabled: false,
            irq_pending: false,
            submapper: variant,
            eeprom,
            vram: zeroed(VRAM_SIZE),
            palette_ram: filled(PALETTE_SIZE, 0x0F),
            controllers: new_controllers(),
        }
    }

    /// The 1KB CHR page of slot `idx`.
    pub fn chr_bank(&self, idx: usize) -> (r: usize)
        requires
            self.wf(),
            idx < 8,
        ensures
            r as int == self.spec_chr_bank(idx as int),
            self.chr_8k@.len() > 0 ==> r < self.chr_pages(),
    {
        if self.chr_8k.len() == 0 {
            return 0;
        }
        self.chr_regs[idx] % (self.chr_8k.len() * 8)
    }

    /// The board after a write of `value` to register `reg` (0-15),
    /// compared with the board `o` before it.
    pub open spec fn register_written(&self, o: &Self, reg: u8, value: u8) -> bool {
        &&& self.wf()
        &&& self.cpu_ram == o.cpu_ram
        &&& self.prg_rom == o.prg_rom
        &&& self.chr_8k == o.chr_8k
        &&& self.submapper == o.submapper
        &&& self.vram == o.vram
        &&& self.palette_ram == o.palette_ram
        &&& self.controllers == o.controllers
        &&& reg < 8 ==> self.chr_regs@ == o.chr_regs@.update(reg as int, value as usize)
        &&& reg >= 8 ==> self.chr_regs == o.chr_regs
        &&& reg == 8 ==> self.prg_bank_idx as int == (if o.prg_rom@.len() == 0 { 0 } else {
                (value & 0x0F) as int % o.prg_rom@.len() as int
            })
        &&& reg != 8 ==> self.prg_bank_idx == o.prg_bank_idx
        &&& reg == 9 ==> self.mirroring == bandai_mirroring(value)
        &&& reg != 9 ==> self.mirroring == o.mirroring
        &&& reg == 0x0A ==> !self.irq_pending && self.irq_enabled == (value & 1 != 0)
                && self.irq_counter == (if o.submapper == BandaiSubmapper::Lz93d50 {
                    o.irq_latch
                } else {
                    o.irq_counter
                })
        &&& reg != 0x0A ==> self.irq_pending == o.irq_pending && self.irq_enabled
                == o.irq_enabled
        &&& reg == 0x0B && o.submapper == BandaiSubmapper::Fcg ==> self.irq_counter as int
                == (o.irq_counter as int / 256) * 256 + value as int && self.irq_latch == o.irq_latch
        &&& reg == 0x0B && o.submapper == BandaiSubmapper::Lz93d50 ==> self.irq_latch as int
                == (o.irq_latch as int / 256) * 256 + value as int && self.irq_counter == o.irq_counter
        &&& reg == 0x0C && o.submapper == BandaiSubmapper::Fcg ==> self.irq_counter as int
                == value as int * 256 + o.irq_counter as int % 256 && self.irq_latch == o.irq_latch
        &&& reg == 0x0C && o.submapper == BandaiSubmapper::Lz93d50 ==> self.irq_latch as int
                == value as int * 256 + o.irq_latch as int % 256 && self.irq_counter == o.irq_counter
        &&& reg != 0x0A && reg != 0x0B && reg != 0x0C ==> self.irq_counter == o.irq_counter
                && self.irq_latch == o.irq_latch
        &&& reg == 0x0D ==> match (o.eeprom, self.eeprom) {
            (Some(e0), Some(e1)) => e1@ == e0@.step((value >> 6u8) & 1 != 0, (value >> 5u8) & 1 != 0),
            (None, None) => true,
            _ => false,
        }
        &&& reg != 0x0D ==> self.eeprom == o.eeprom
    }

    /// Registers 0-7: CHR banks; 8: PRG bank; 9: mirroring; $A: IRQ
    /// acknowledge/enable (LZ93D50 reloads the counter); $B/$C: counter
    /// (FCG) or latch (LZ93D50) low/high byte; $D: EEPROM lines.
    pub fn write_register(&mut self, reg: u8, value: u8)
        requires
            old(self).wf(),
        ensures
            final(self).register_written(&*old(self), reg, value),
    {
        if reg < 8 {
            self.chr_regs[reg as usize] = value as usize;
        } else if reg == 8 {
            self.prg_bank_idx = if self.prg_rom.len() == 0 {
                0
            } else {
                ((value & 0x0F) as usize) % self.prg_rom.len()
            };
        } else if reg == 9 {
            let m = value & 0x03;
            self.mirroring = if m == 0 {
                NametableMirror::Vertical
            } else if m == 1 {
                NametableMirror::Horizontal
            } else if m == 2 {
                NametableMirror::Lower
            } else {
                NametableMirror::Higher
            };
        } else if reg == 0x0A {
            self.irq_pending = false;
            if self.submapper == BandaiSubmapper::Lz93d50 {
                self.irq_counter = self.irq_latch;
            }
            self.irq_enabled = value & 0x01 != 0;
        } else if reg == 0x0B {
            if self.submapper == BandaiSubmapper::Fcg {
                self.irq_counter = (self.irq_counter / 256) * 256 + value as u16;
            } else {
                self.irq_latch = (self.irq_latch / 256) * 256 + value as u16;
            }
        } else if reg == 0x0C {
            if self.submapper == BandaiSubmapper::Fcg {
                self.irq_counter = (value as u16) * 256 + self.irq_counter % 256;
            } else {
                self.irq_latch = (value as u16) * 256 + self.irq_latch % 256;
            }
        } else if reg == 0x0D {
            match &mut self.eeprom {
                Some(e) => {
                    let sda = (value >> 6) & 1 != 0;
                    let scl = (value >> 5) & 1 != 0;
                    e.write(sda, scl);
                },
                None => {},
            }
        }
    }

    pub fn cpu_peek(&self, addr: u16) -> (r: u8)
        requires
            self.wf(),
        ensures
            r == self.spec_cpu_read(addr),
    {
        let a = mirror_addr(addr);
        let page = addr_to_page(a);
        if page == 0x00 || page == 0x10 {
            self.cpu_ram[a as usize]
        } else if (page == 0x60 || page == 0x70) && self.submapper == BandaiSubmapper::Lz93d50 {
            match &self.eeprom {
                Some(e) => if e.read_bit() { 0x10 } else { 0x00 },
                None => 0,
            }
        } else if a >= 0x8000 && self.prg_rom.len() == 0 {
            0
        } else if a >= 0x8000 && a < 0xC000 {
            self.prg_rom[self.prg_bank_idx][(a - 0x8000) as usize]
        } else if a >= 0xC000 {
            let fixed = self.prg_rom.len() - 1;
            self.prg_rom[fixed][(a - 0xC000) as usize]
        } else {
            0
        }
    }

    pub fn cpu_read(&self, addr: u16) -> (r: u8)
        requires
            self.wf(),
        ensures
            r == self.spec_cpu_read(addr),
    {
        self.cpu_peek(addr)
    }

    /// RAM below $2000; registers at $6000-$7FFF (FCG) or $8000-$FFFF
    /// (LZ93D50), selected by the low four address bits.
    pub fn cpu_write(&mut self, addr: u16, value: u8)
        requires
            old(self).wf(),
        ensures
            final(self).wf(),
            ({
                let a = spec_mirror_addr(addr);
                let page = spec_addr_to_page(a);
                let is_reg = ((page == 0x60 || page == 0x70) && old(self).submapper == BandaiSubmapper::Fcg)
                    || (a >= 0x8000 && old(self).submapper == BandaiSubmapper::Lz93d50);
                &&& (page == 0x00 || page == 0x10) ==> final(self).cpu_ram@ == old(self).cpu_ram@.update(a as int, value)
                    && final(self).prg_bank_idx == old(self).prg_bank_idx
                    && final(self).chr_regs == old(self).chr_regs
                &&& !(page == 0x00 || page == 0x10) ==> final(self).cpu_ram == old(self).cpu_ram
                &&& !is_reg ==> final(self).prg_bank_idx == old(self).prg_bank_idx
                    && final(self).chr_regs == old(self).chr_regs
                    && final(self).mirroring == old(self).mirroring
                    && final(self).irq_counter == old(self).irq_counter
                    && final(self).irq_latch == old(self).irq_latch
                    && final(self).irq_enabled == old(self).irq_enabled
                    && final(self).irq_pending == old(self).irq_pending
                    && final(self).eeprom == old(self).eeprom
                &&& is_reg && (a % 16) < 8 ==> final(self).chr_regs@ == old(self).chr_regs@.update(
                    (a % 16) as int,
                    value as usize,
                )
                &&& is_reg && a % 16 == 8 ==> final(self).prg_bank_idx as int == (if old(self).prg_rom@.len() == 0 { 0 } else {
                    (value & 0x0F) as int % old(self).prg_rom@.len() as int
                })
                &&& is_reg && a % 16 == 9 ==> final(self).mirroring == bandai_mirroring(value)
                &&& is_reg ==> final(self).register_written(&*old(self), (a % 16) as u8, value)
            }),
            final(self).prg_rom == old(self).prg_rom,
            final(self).chr_8k == old(self).chr_8k,
            final(self).submapper == old(self).submapper,
            final(self).vram == old(self).vram,
            final(self).palette_ram == old(self).palette_ram,
            final(self).controllers == old(self).controllers,
    {
        let a = mirror_addr(addr);
        let page = addr_to_page(a);
        if page == 0x00 || page == 0x10 {
            self.cpu_ram.set(a as usize, value);
        } else if (page == 0x60 || page == 0x70) && self.submapper == BandaiSubmapper::Fcg {
            self.write_register((a % 16) as u8, value);
        } else if a >= 0x8000 && self.submapper == BandaiSubmapper::Lz93d50 {
            self.write_register((a % 16) as u8, value);
        }
    }

    /// One CPU cycle of the IRQ counter: while enabled it counts down and
    /// raises the IRQ once it reaches zero.
    pub fn cpu_cycle(&mut self, ppu_dot: u64)
        ensures
            !old(self).irq_enabled ==> *final(self) == *old(self),
            old(self).irq_enabled && old(self).irq_counter == 0 ==> final(self).irq_pending
                && final(self).irq_counter == 0,
            old(self).irq_enabled && old(self).irq_counter > 0 ==> final(self).irq_pending == old(self).irq_pending
                && final(self).irq_counter == old(self).irq_counter - 1,
            final(self).cpu_ram == old(self).cpu_ram,
            final(self).prg_rom == old(self).prg_rom,
            final(self).prg_bank_idx == old(self).prg_bank_idx,
            final(self).chr_8k == old(self).chr_8k,
            final(self).chr_regs == old(self).chr_regs,
            final(self).mirroring == old(self).mirroring,
            final(self).irq_latch == old(self).irq_latch,
            final(self).irq_enabled == old(self).irq_enabled,
            final(self).submapper == old(self).submapper,
            final(self).eeprom == old(self).eeprom,
            final(self).vram == old(self).vram,
            final(self).palette_ram == old(self).palette_ram,
            final(self).controllers == old(self).controllers,
    {
        if !self.irq_enabled {
            return;
        }
        if self.irq_counter == 0 {
            self.irq_pending = true;
        } else {
            self.irq_counter = self.irq_counter - 1;
        }
    }

    pub fn ppu_read(&self, addr: u16) -> (r: u8)
        requires
            self.wf(),
        ensures
            r == self.spec_ppu_read(addr),
    {
        let a = addr % 0x4000;
        if a >= 0x3F00 {
            return self.palette_ram[palette_index(a)];
        }
        if a < 0x2000 {
            if self.chr_8k.len() == 0 {
                return 0;
            }
            let bank = self.chr_bank((a / 1024) as usize);
            self.chr_8k[bank / 8][(bank % 8) * 1024 + (a % 1024) as usize]
        } else {
            self.vram[mirror_nametable_addr(a, self.mirroring) as usize]
        }
    }

    /// CHR is ROM: only nametable and palette writes land.
    pub fn ppu_write(&mut self, addr: u16, value: u8)
        requires
            old(self).wf(),
        ensures
            final(self).wf(),
            ({
                let a = (addr as int) % 0x4000;
                &&& a >= 0x3F00 ==> final(self).palette_ram@ == old(self).palette_ram@.update(palette_slot(a as u16), value)
                    && final(self).vram == old(self).vram
                &&& 0x2000 <= a < 0x3F00 ==> final(self).vram@ == old(self).vram@.update(nt_offset(a as u16, old(self).mirroring), value)
                    && final(self).palette_ram == old(self).palette_ram
                &&& a < 0x2000 ==> final(self).vram == old(self).vram && final(self).palette_ram == old(self).palette_ram
            }),
            final(self).cpu_ram == old(self).cpu_ram,
            final(self).prg_bank_idx == old(self).prg_bank_idx,
            final(self).chr_regs == old(self).chr_regs,
            final(self).mirroring == old(self).mirroring,
            final(self).eeprom == old(self).eeprom,
    {
        let a = addr % 0x4000;
        if a >= 0x3F00 {
            let i = palette_index(a);
            self.palette_ram.set(i, value);
        } else if a >= 0x2000 {
            let i = mirror_nametable_addr(a, self.mirroring) as usize;
            self.vram.set(i, value);
        }
    }

    /// 4 for FCG boards, 5 for LZ93D50.
    pub fn submapper_id(&self) -> (r: u8)
        ensures
            r == (if self.submapper == BandaiSubmapper::Fcg { 4u8 } else { 5u8 }),
    {
        match self.submapper {
            BandaiSubmapper::Fcg => 4,
            BandaiSubmapper::Lz93d50 => 5,
        }
    }

    /// The EEPROM contents, for battery saves.
    pub fn sram_data(&self) -> (r: Option<&[u8]>)
        ensures
            self.eeprom is None ==> r is None,
            self.eeprom matches Some(e) ==> (r matches Some(d) && d@ == e.data@),
    {
        match &self.eeprom {
            Some(e) => Some(e.data.as_slice()),
            None => None,
        }
    }

    pub fn code_start(&self) -> (r: u16)
        requires
            self.wf(),
        ensures
            r == word(self.spec_cpu_read(RESET_TARGET_ADDR), self.spec_cpu_read(0xFFFD)),
    {
        make_word(self.cpu_peek(RESET_TARGET_ADDR), self.cpu_peek(RESET_TARGET_ADDR + 1))
    }

    pub fn poll_irq(&self) -> (r: bool)
        ensures
            r == self.irq_pending,
    {
        self.irq_pending
    }

    pub fn mapper_id(&self) -> (r: u8)
        ensures
            r == 16,
    {
        16
    }
}

/// The byte a savestate stores for the board variant.
pub open spec fn submapper_code(s: BandaiSubmapper) -> u8 {
    match s {
        BandaiSubmapper::Fcg => 0,
        BandaiSubmapper::Lz93d50 => 1,
    }
}

impl BandaiFcgMapper {
    /// The EEPROM part of a savestate: a presence flag, then the chip.
    pub open spec fn eeprom_block(&self) -> Seq<u8> {
        match self.eeprom {
            Some(e) => enc_u8(1) + e.state_bytes(),
            None => enc_u8(0),
        }
    }

    /// The EEPROM chip, if the board has one.
    pub open spec fn eeprom_model(&self) -> Option<EepromModel> {
        match self.eeprom {
            Some(e) => Some(e@),
            None => None,
        }
    }
}

impl BandaiFcgMapper {
    /// The bytes `save_state` appends.
    pub open spec fn state_bytes(&self) -> Seq<u8> {
        self.cpu_ram@
            + enc_u8(self.prg_bank_idx as u8)
            + enc_u8(self.chr_regs@[0] as u8)
            + enc_u8(self.chr_regs@[1] as u8)
            + enc_u8(self.chr_regs@[2] as u8)
            + enc_u8(self.chr_regs@[3] as u8)
            + enc_u8(self.chr_regs@[4] as u8)
            + enc_u8(self.chr_regs@[5] as u8)
            + enc_u8(self.chr_regs@[6] as u8)
            + enc_u8(self.chr_regs@[7] as u8)
            + enc_u8(mirror_code(self.mirroring))
            + enc_u16(self.irq_latch)
            + enc_u16(self.irq_counter)
            + enc_bool(self.irq_enabled)
            + enc_bool(self.irq_pending)
            + enc_u8(submapper_code(self.submapper))
            + self.eeprom_block()
            + self.vram@
            + self.palette_ram@
            + controllers_bytes(self.controllers)
    }

    /// Length of the saved state.
    pub open spec fn state_len(&self) -> nat {
        (CPU_RAM_SIZE + (if self.eeprom is Some { 265int } else { 1int }) + VRAM_SIZE + PALETTE_SIZE + 2 * CONTROLLER_STATE_LEN + 17) as nat
    }

    /// Every register that the state stores in fewer bits than it is held in
    /// fits in those bits.
    pub open spec fn fits(&self) -> bool {
        &&& self.prg_bank_idx < 256
        &&& self.chr_regs@[0] < 256
        &&& self.chr_regs@[1] < 256
        &&& self.chr_regs@[2] < 256
        &&& self.chr_regs@[3] < 256
        &&& self.chr_regs@[4] < 256
        &&& self.chr_regs@[5] < 256
        &&& self.chr_regs@[6] < 256
        &&& self.chr_regs@[7] < 256
    }

    /// The stored bytes at `p` hold a state that this cartridge can take.
    pub open spec fn state_valid(&self, d: Seq<u8>, p: int) -> bool {
        &&& (self.prg_rom@.len() > 0 ==> (d[(p + CPU_RAM_SIZE)] as usize) < self.prg_rom@.len())
        &&& mirror_from_code(d[(p + CPU_RAM_SIZE + 9)]) is Some
        &&& (self.eeprom is Some) == (d[(p + CPU_RAM_SIZE + 17)] != 0)
        &&& self.eeprom is Some ==> Eeprom24C02::state_valid(d, (p + CPU_RAM_SIZE + 17) + 1)
    }

    /// What `load_state` answers for the bytes at `p`.
    pub open spec fn load_outcome(&self, d: Seq<u8>, p: int) -> Result<(), StateError> {
        if p + self.state_len() > d.len() {
            Err(StateError::UnexpectedEof)
        } else if !self.state_valid(d, p) {
            Err(StateError::InvalidValue)
        } else {
            Ok(())
        }
    }

    /// Every saved field holds what the bytes at `p` store.
    pub open spec fn loaded_from(&self, d: Seq<u8>, p: int) -> bool {
        &&& self.cpu_ram@ == d.subrange(p, p + CPU_RAM_SIZE)
        &&& self.prg_bank_idx == d[(p + CPU_RAM_SIZE)] as usize
        &&& self.chr_regs@[0] == d[(p + CPU_RAM_SIZE + 1)] as usize
        &&& self.chr_regs@[1] == d[(p + CPU_RAM_SIZE + 2)] as usize
        &&& self.chr_regs@[2] == d[(p + CPU_RAM_SIZE + 3)] as usize
        &&& self.chr_regs@[3] == d[(p + CPU_RAM_SIZE + 4)] as usize
        &&& self.chr_regs@[4] == d[(p + CPU_RAM_SIZE + 5)] as usize
        &&& self.chr_regs@[5] == d[(p + CPU_RAM_SIZE + 6)] as usize
        &&& self.chr_regs@[6] == d[(p + CPU_RAM_SIZE + 7)] as usize
        &&& self.chr_regs@[7] == d[(p + CPU_RAM_SIZE + 8)] as usize
        &&& self.mirroring == mirror_from_code(d[(p + CPU_RAM_SIZE + 9)])->0
        &&& self.irq_latch == dec_u16_at(d, (p + CPU_RAM_SIZE + 10))
        &&& self.irq_counter == dec_u16_at(d, (p + CPU_RAM_SIZE + 12))
        &&& self.irq_enabled == (d[(p + CPU_RAM_SIZE + 14)] != 0)
        &&& self.irq_pending == (d[(p + CPU_RAM_SIZE + 15)] != 0)
        &&& match self.eeprom {
            Some(e) => e.loaded_from(d, (p + CPU_RAM_SIZE + 17) + 1),
            None => true,
        }
        &&& self.vram@ == d.subrange((p + CPU_RAM_SIZE + (if self.eeprom is Some { 265int } else { 1int }) + 17), (p + CPU_RAM_SIZE + (if self.eeprom is Some { 265int } else { 1int }) + 17) + VRAM_SIZE)
        &&& self.palette_ram@ == d.subrange((p + CPU_RAM_SIZE + (if self.eeprom is Some { 265int } else { 1int }) + VRAM_SIZE + 17), (p + CPU_RAM_SIZE + (if self.eeprom is Some { 265int } else { 1int }) + VRAM_SIZE + 17) + PALETTE_SIZE)
        &&& self.controllers@[0] == controller_at(d, (p + CPU_RAM_SIZE + (if self.eeprom is Some { 265int } else { 1int }) + VRAM_SIZE + PALETTE_SIZE + 17))
        &&& self.controllers@[1] == controller_at(d, (p + CPU_RAM_SIZE + (if self.eeprom is Some { 265int } else { 1int }) + VRAM_SIZE + PALETTE_SIZE + 17) + CONTROLLER_STATE_LEN)
    }

    /// The two agree on every saved field.
    pub open spec fn same_state(&self, other: &Self) -> bool {
        &&& self.cpu_ram@ == other.cpu_ram@
        &&& self.prg_bank_idx == other.prg_bank_idx
        &&& self.chr_regs@[0] == other.chr_regs@[0]
        &&& self.chr_regs@[1] == other.chr_regs@[1]
        &&& self.chr_regs@[2] == other.chr_regs@[2]
        &&& self.chr_regs@[3] == other.chr_regs@[3]
        &&& self.chr_regs@[4] == other.chr_regs@[4]
        &&& self.chr_regs@[5] == other.chr_regs@[5]
        &&& self.chr_regs@[6] == other.chr_regs@[6]
        &&& self.chr_regs@[7] == other.chr_regs@[7]
        &&& self.mirroring == other.mirroring
        &&& self.irq_latch == other.irq_latch
        &&& self.irq_counter == other.irq_counter
        &&& self.irq_enabled == other.irq_enabled
        &&& self.irq_pending == other.irq_pending
        &&& self.eeprom_model() == other.eeprom_model()
        &&& self.vram@ == other.vram@
        &&& self.palette_ram@ == other.palette_ram@
        &&& self.controllers@ == other.controllers@
    }

    /// The two agree on every field that the state does not store.
    pub open spec fn keeps_unsaved(&self, other: &Self) -> bool {
        &&& self.prg_rom == other.prg_rom
        &&& self.chr_8k == other.chr_8k
        &&& self.submapper == other.submapper
    }

    /// The two come from cartridges of the same shape.
    pub open spec fn same_layout(&self, other: &Self) -> bool {
        &&& self.prg_rom@.len() == other.prg_rom@.len()
        &&& (self.eeprom is Some) == (other.eeprom is Some)
    }

    #[verifier::spinoff_prover]
    pub fn save_state(&self, w: &mut SavestateWriter)
        ensures
            final(w).buf@ == old(w).buf@ + self.state_bytes(),
    {
        let ghost b = w.buf@;
        let ghost s0 = self.cpu_ram@;
        let ghost s1 = s0 + enc_u8(self.prg_bank_idx as u8);
        let ghost s2 = s1 + enc_u8(self.chr_regs@[0] as u8);
        let ghost s3 = s2 + enc_u8(self.chr_regs@[1] as u8);
        let ghost s4 = s3 + enc_u8(self.chr_regs@[2] as u8);
        let ghost s5 = s4 + enc_u8(self.chr_regs@[3] as u8);
        let ghost s6 = s5 + enc_u8(self.chr_regs@[4] as u8);
        let ghost s7 = s6 + enc_u8(self.chr_regs@[5] as u8);
        let ghost s8 = s7 + enc_u8(self.chr_regs@[6] as u8);
        let ghost s9 = s8 + enc_u8(self.chr_regs@[7] as u8);
        let ghost s10 = s9 + enc_u8(mirror_code(self.mirroring));
        let ghost s11 = s10 + enc_u16(self.irq_latch);
        let ghost s12 = s11 + enc_u16(self.irq_counter);
        let ghost s13 = s12 + enc_bool(self.irq_enabled);
        let ghost s14 = s13 + enc_bool(self.irq_pending);
        let ghost s15 = s14 + enc_u8(submapper_code(self.submapper));
        let ghost s16 = s15 + self.eeprom_block();
        let ghost s17 = s16 + self.vram@;
        let ghost s18 = s17 + self.palette_ram@;
        let ghost s19 = s18 + controllers_bytes(self.controllers);
        w.write_bytes(self.cpu_ram.as_slice());
        w.write_u8(self.prg_bank_idx as u8);
        proof {
            lemma_add_assoc(b, s0, enc_u8(self.prg_bank_idx as u8));
        }
        w.write_u8(self.chr_regs[0] as u8);
        proof {
            lemma_add_assoc(b, s1, enc_u8(self.chr_regs@[0] as u8));
        }
        w.write_u8(self.chr_regs[1] as u8);
        proof {
            lemma_add_assoc(b, s2, enc_u8(self.chr_regs@[1] as u8));
        }
        w.write_u8(self.chr_regs[2] as u8);
        proof {
            lemma_add_assoc(b, s3, enc_u8(self.chr_regs@[2] as u8));
        }
        w.write_u8(self.chr_regs[3] as u8);
        proof {
            lemma_add_assoc(b, s4, enc_u8(self.chr_regs@[3] as u8));
        }
        w.write_u8(self.chr_regs[4] as u8);
        proof {
            lemma_add_assoc(b, s5, enc_u8(self.chr_regs@[4] as u8));
        }
        w.write_u8(self.chr_regs[5] as u8);
        proof {
            lemma_add_assoc(b, s6, enc_u8(self.chr_regs@[5] as u8));
        }
        w.write_u8(self.chr_regs[6] as u8);
        proof {
            lemma_add_assoc(b, s7, enc_u8(self.chr_regs@[6] as u8));
        }
        w.write_u8(self.chr_regs[7] as u8);
        proof {
            lemma_add_assoc(b, s8, enc_u8(self.chr_regs@[7] as u8));
        }
        save_mirroring(w, self.mirroring);
        proof {
            lemma_add_assoc(b, s9, enc_u8(mirror_code(self.mirroring)));
        }
        w.write_u16(self.irq_latch);
        proof {
            lemma_add_assoc(b, s10, enc_u16(self.irq_latch));
        }
        w.write_u16(self.irq_counter);
        proof {
            lemma_add_assoc(b, s11, enc_u16(self.irq_counter));
        }
        w.write_bool(self.irq_enabled);
        proof {
            lemma_add_assoc(b, s12, enc_bool(self.irq_enabled));
        }
        w.write_bool(self.irq_pending);
        proof {
            lemma_add_assoc(b, s13, enc_bool(self.irq_pending));
        }
        w.write_u8(
            match self.submapper {
                BandaiSubmapper::Fcg => 0,
                BandaiSubmapper::Lz93d50 => 1,
            },
        );
        proof {
            lemma_add_assoc(b, s14, enc_u8(submapper_code(self.submapper)));
        }
        let ghost before = w.buf@;
        match &self.eeprom {
            Some(e) => {
                w.write_u8(1);
                e.save_state(w);
                proof {
                    lemma_add_assoc(before, enc_u8(1), e.state_bytes());
                }
            },
            None => {
                w.write_u8(0);
            },
        }
        proof {
            lemma_add_assoc(b, s15, self.eeprom_block());
        }
        w.write_bytes(self.vram.as_slice());
        proof {
            lemma_add_assoc(b, s16, self.vram@);
        }
        w.write_bytes(self.palette_ram.as_slice());
        proof {
            lemma_add_assoc(b, s17, self.palette_ram@);
        }
        save_controllers(w, &self.controllers);
        proof {
            lemma_add_assoc(b, s18, controllers_bytes(self.controllers));
        }
    }

    /// Restores a state written by `save_state`. Nothing changes unless the
    /// whole state is there and holds values this cartridge can take.
    #[verifier::spinoff_prover]
    pub fn load_state(&mut self, r: &mut SavestateReader) -> (res: Result<(), StateError>)
        requires
            old(self).wf(),
            old(r).wf(),
        ensures
            final(r).wf(),
            final(r).data@ == old(r).data@,
            res == old(self).load_outcome(old(r).data@, old(r).pos as int),
            res is Err ==> *final(self) == *old(self) && final(r).pos == old(r).pos,
            res is Ok ==> final(self).wf() && final(self).loaded_from(old(r).data@, old(r).pos as int)
                && final(self).keeps_unsaved(&*old(self)) && final(self).same_layout(&*old(self))
                && final(r).pos == old(r).pos + old(self).state_len(),
    {
        let ghost d = r.data@;
        let ghost p = r.pos as int;
        let start = r.pos;
        let eeprom_len: usize = if self.eeprom.is_some() { 265 } else { 1 };
        if r.remaining_len() < CPU_RAM_SIZE + eeprom_len + VRAM_SIZE + PALETTE_SIZE + 2 * CONTROLLER_STATE_LEN + 17 {
            return Err(StateError::UnexpectedEof);
        }
        let cpu_ram = r.take_bytes(CPU_RAM_SIZE);
        let prg_bank_idx = r.take_u8() as usize;
        let chr0 = r.take_u8() as usize;
        let chr1 = r.take_u8() as usize;
        let chr2 = r.take_u8() as usize;
        let chr3 = r.take_u8() as usize;
        let chr4 = r.take_u8() as usize;
        let chr5 = r.take_u8() as usize;
        let chr6 = r.take_u8() as usize;
        let chr7 = r.take_u8() as usize;
        let mirroring_code = r.take_u8();
        let irq_latch = r.take_u16();
        let irq_counter = r.take_u16();
        let irq_enabled = r.take_bool();
        let irq_pending = r.take_bool();
        let _submapper_code = r.take_u8();
        let eeprom_flag = r.take_u8();
        if (eeprom_flag != 0) != self.eeprom.is_some() {
            r.rewind(start);
            return Err(StateError::InvalidValue);
        }
        let eeprom = if self.eeprom.is_some() {
            Some(Eeprom24C02::take_state(r))
        } else {
            None
        };
        let vram = r.take_bytes(VRAM_SIZE);
        let palette_ram = r.take_bytes(PALETTE_SIZE);
        let controllers = take_controllers(r);
        let mirroring = match mirroring_from_code(mirroring_code) {
            Some(m) => m,
            None => {
                r.rewind(start);
                return Err(StateError::InvalidValue);
            },
        };
        if (self.prg_rom.len() > 0 && prg_bank_idx >= self.prg_rom.len())
            || (match &eeprom {
                Some(e) => !e.interface_valid(),
                None => false,
            }) {
            r.rewind(start);
            return Err(StateError::InvalidValue);
        }
        self.cpu_ram = cpu_ram;
        self.prg_bank_idx = prg_bank_idx;
        self.mirroring = mirroring;
        self.irq_latch = irq_latch;
        self.irq_counter = irq_counter;
        self.irq_enabled = irq_enabled;
        self.irq_pending = irq_pending;
        self.eeprom = eeprom;
        self.vram = vram;
        self.palette_ram = palette_ram;
        self.controllers = controllers;
        self.chr_regs = [chr0, chr1, chr2, chr3, chr4, chr5, chr6, chr7];
        Ok(())
    }

    /// Saving a state and loading it into a cartridge of the same shape
    /// succeeds and restores every saved field.
    #[verifier::spinoff_prover]
    #[verifier::rlimit(50)]
    pub proof fn lemma_state_roundtrip(o: Self, m: Self, n: Self, d: Seq<u8>, p: int)
        requires
            o.wf(),
            m.wf(),
            m.fits(),
            o.same_layout(&m),
            n.same_layout(&m),
            stored_at(d, p, m.state_bytes()),
        ensures
            o.load_outcome(d, p) == Ok::<(), StateError>(()),
            n.loaded_from(d, p) ==> n.same_state(&m),
    {
        let s0 = m.cpu_ram@;
        let s1 = s0 + enc_u8(m.prg_bank_idx as u8);
        let s2 = s1 + enc_u8(m.chr_regs@[0] as u8);
        let s3 = s2 + enc_u8(m.chr_regs@[1] as u8);
        let s4 = s3 + enc_u8(m.chr_regs@[2] as u8);
        let s5 = s4 + enc_u8(m.chr_regs@[3] as u8);
        let s6 = s5 + enc_u8(m.chr_regs@[4] as u8);
        let s7 = s6 + enc_u8(m.chr_regs@[5] as u8);
        let s8 = s7 + enc_u8(m.chr_regs@[6] as u8);
        let s9 = s8 + enc_u8(m.chr_regs@[7] as u8);
        let s10 = s9 + enc_u8(mirror_code(m.mirroring));
        let s11 = s10 + enc_u16(m.irq_latch);
        let s12 = s11 + enc_u16(m.irq_counter);
        let s13 = s12 + enc_bool(m.irq_enabled);
        let s14 = s13 + enc_bool(m.irq_pending);
        let s15 = s14 + enc_u8(submapper_code(m.submapper));
        let s16 = s15 + m.eeprom_block();
        let s17 = s16 + m.vram@;
        let s18 = s17 + m.palette_ram@;
        let s19 = s18 + controllers_bytes(m.controllers);
        lemma_stored_split(d, p, s18, controllers_bytes(m.controllers));
        lemma_stored_split(d, p, s17, m.palette_ram@);
        lemma_stored_split(d, p, s16, m.vram@);
        lemma_stored_split(d, p, s15, m.eeprom_block());
        lemma_stored_split(d, p, s14, enc_u8(submapper_code(m.submapper)));
        lemma_stored_split(d, p, s13, enc_bool(m.irq_pending));
        lemma_stored_split(d, p, s12, enc_bool(m.irq_enabled));
        lemma_stored_split(d, p, s11, enc_u16(m.irq_counter));
        lemma_stored_split(d, p, s10, enc_u16(m.irq_latch));
        lemma_stored_split(d, p, s9, enc_u8(mirror_code(m.mirroring)));
        lemma_stored_split(d, p, s8, enc_u8(m.chr_regs@[7] as u8));
        lemma_stored_split(d, p, s7, enc_u8(m.chr_regs@[6] as u8));
        lemma_stored_split(d, p, s6, enc_u8(m.chr_regs@[5] as u8));
        lemma_stored_split(d, p, s5, enc_u8(m.chr_regs@[4] as u8));
        lemma_stored_split(d, p, s4, enc_u8(m.chr_regs@[3] as u8));
        lemma_stored_split(d, p, s3, enc_u8(m.chr_regs@[2] as u8));
        lemma_stored_split(d, p, s2, enc_u8(m.chr_regs@[1] as u8));
        lemma_stored_split(d, p, s1, enc_u8(m.chr_regs@[0] as u8));
        lemma_stored_split(d, p, s0, enc_u8(m.prg_bank_idx as u8));
        lemma_stored_u8(d, (p + CPU_RAM_SIZE), m.prg_bank_idx as u8);
        lemma_stored_u8(d, (p + CPU_RAM_SIZE + 1), m.chr_regs@[0] as u8);
        lemma_stored_u8(d, (p + CPU_RAM_SIZE + 2), m.chr_regs@[1] as u8);
        lemma_stored_u8(d, (p + CPU_RAM_SIZE + 3), m.chr_regs@[2] as u8);
        lemma_stored_u8(d, (p + CPU_RAM_SIZE + 4), m.chr_regs@[3] as u8);
        lemma_stored_u8(d, (p + CPU_RAM_SIZE + 5), m.chr_regs@[4] as u8);
        lemma_stored_u8(d, (p + CPU_RAM_SIZE + 6), m.chr_regs@[5] as u8);
        lemma_stored_u8(d, (p + CPU_RAM_SIZE + 7), m.chr_regs@[6] as u8);
        lemma_stored_u8(d, (p + CPU_RAM_SIZE + 8), m.chr_regs@[7] as u8);
        lemma_stored_u8(d, (p + CPU_RAM_SIZE + 9), mirror_code(m.mirroring));
        lemma_mirror_code_roundtrip(m.mirroring);
        lemma_stored_u16(d, (p + CPU_RAM_SIZE + 10), m.irq_latch);
        lemma_stored_u16(d, (p + CPU_RAM_SIZE + 12), m.irq_counter);
        lemma_stored_bool(d, (p + CPU_RAM_SIZE + 14), m.irq_enabled);
        lemma_stored_bool(d, (p + CPU_RAM_SIZE + 15), m.irq_pending);
        match m.eeprom {
            Some(e) => {
                lemma_stored_split(d, (p + CPU_RAM_SIZE + 17), enc_u8(1), e.state_bytes());
                lemma_stored_u8(d, (p + CPU_RAM_SIZE + 17), 1);
                match n.eeprom {
                    Some(f) => Eeprom24C02::lemma_stored_state(d, (p + CPU_RAM_SIZE + 17) + 1, e, f),
                    None => Eeprom24C02::lemma_stored_state(d, (p + CPU_RAM_SIZE + 17) + 1, e, e),
                }
            },
            None => {
                lemma_stored_u8(d, (p + CPU_RAM_SIZE + 17), 0);
            },
        }
        lemma_stored_controllers(d, (p + CPU_RAM_SIZE + (if m.eeprom is Some { 265int } else { 1int }) + VRAM_SIZE + PALETTE_SIZE + 17), m.controllers);
        if n.loaded_from(d, p) {
            assert(n.controllers@ =~= m.controllers@);
        }
    }
}

impl BandaiFcgMapper {
    /// Where a bulk copy of `size` bytes from `addr` reads: the selected 1KB
    /// pattern page from the address on, or the nametable RAM from the
    /// mirrored address on ($2000-$3FFF); nothing without CHR.
    pub open spec fn copy_run(&self, addr: u16, size: int) -> Option<(Seq<u8>, int, int)> {
        let a = (addr as int) % 0x4000;
        if a < 0x2000 {
            if self.chr_8k@.len() == 0 {
                None
            } else {
                let b = self.spec_chr_bank(a / 1024);
                Some((self.chr_8k@[b / 8]@, (b % 8) * 1024 + a % 1024, size))
            }
        } else {
            Some((self.vram@, nt_offset(a as u16, self.mirroring), size))
        }
    }

    /// Copies `size` bytes of PPU memory from `addr` to the front of `dest`,
    /// from one run of the memory behind that address; the run must hold
    /// them.
    pub fn ppu_copy(&self, addr: u16, dest: &mut Vec<u8>, size: usize)
        requires
            self.wf(),
            size <= old(dest)@.len(),
            ({
                let a = (addr as int) % 0x4000;
                &&& a < 0x2000 ==> a % 1024 + size <= 1024
                &&& a >= 0x2000 ==> nt_offset(a as u16, self.mirroring) + size <= VRAM_SIZE
            }),
        ensures
            match self.copy_run(addr, size as int) {
                Some((src, off, n)) => final(dest)@ == copied_into(old(dest)@, src, off, n),
                None => final(dest)@ == old(dest)@,
            },
    {
        let a = addr % 0x4000;
        if a < 0x2000 {
            if self.chr_8k.len() > 0 {
                let b = self.chr_bank((a / 1024) as usize);
                copy_bank_to_front(dest, &self.chr_8k[b / 8], (b % 8) * 1024 + (a % 1024) as usize, size);
            }
        } else {
            let v = mirror_nametable_addr(a, self.mirroring) as usize;
            copy_vec_to_front(dest, &self.vram, v, size);
        }
    }
}

} // verus!
