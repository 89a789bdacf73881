//! Jaleco SS88006 (mapper 18): three 8KB PRG banks and eight 1KB CHR banks
//! written a nibble at a time, switchable PRG RAM, and a 16/12/8/4-bit
//! CPU-cycle IRQ counter.

use vstd::prelude::*;
use crate::bus::{NametableMirror, CPU_RAM_SIZE, VRAM_SIZE, PALETTE_SIZE, RESET_TARGET_ADDR, spec_mirror_addr, mirror_addr, spec_addr_to_page, addr_to_page, spec_mirroring_from_flags, mirroring_from_flags, nt_offset, mirror_nametable_addr, palette_slot, palette_index, word, make_word};
use crate::ppu_bus::{zeroed, filled};
use crate::controller::Controller;
use crate::mapper::common::{new_controllers, copied_into, copy_vec_to_front, copy_bank_to_front};

use crate::savestate::{SavestateWriter, SavestateReader, StateError, enc_u8, enc_bool, enc_u16, dec_u16_at, stored_at, lemma_add_assoc, lemma_stored_split, lemma_stored_u8, lemma_stored_bool, lemma_stored_u16};
use crate::controller::{controllers_bytes, controller_at, save_controllers, take_controllers, lemma_stored_controllers, CONTROLLER_STATE_LEN};
use crate::ppu_bus::{mirror_code, mirror_from_code, mirroring_from_code, save_mirroring, lemma_mirror_code_roundtrip};

verus! {
use crate::mapper::common::{split_16k_to_8k, ram_with_saved};

pub const PRG_BANK_SIZE: usize = 8 * 1024;
pub const CHR_BANK_SIZE: usize = 1024;
pub const PRG_RAM_8K: usize = 8 * 1024;

pub struct JalecoSS88006Mapper {
    pub cpu_ram: Vec<u8>,
    pub prg_rom: Vec<[u8; PRG_BANK_SIZE]>,
    pub prg_regs: [usize; 3],
    pub prg_ram: Vec<u8>,
    pub prg_ram_enabled: bool,
    pub prg_ram_writable: bool,
    pub has_battery: bool,
    pub chr_8k: Vec<[u8; 8192]>,
    pub chr_regs: [usize; 8],
    pub mirroring: NametableMirror,
    pub irq_latch: u16,
    pub irq_counter: u16,
    pub irq_enabled: bool,
    pub irq_pending: bool,
    pub irq_width_mask: u16,
    pub vram: Vec<u8>,
    pub palette_ram: Vec<u8>,
    pub controllers: [Controller; 2],
}

/// Register index (A12-A14) and sub-register (A0-A1) of a write to $8000-$FFFF.
pub open spec fn reg_of(a: u16) -> u16 {
    (a >> 12u16) & 7
}

pub open spec fn sub_of(a: u16) -> u16 {
    a & 3
}

/// The counter width selected by the IRQ control nibble.
pub open spec fn width_mask(n: usize) -> u16 {
    if n & 8 != 0 {
        0x000F
    } else if n & 4 != 0 {
        0x0FFF
    } else if n & 2 != 0 {
        0x00FF
    } else {
        0xFFFF
    }
}

pub open spec fn ss_mirroring(n: usize) -> NametableMirror {
    let m = n & 3;
    if m == 0 {
        NametableMirror::Horizontal
    } else if m == 1 {
        NametableMirror::Vertical
    } else if m == 2 {
        NametableMirror::Lower
    } else {
        NametableMirror::Higher
    }
}

/// Byte `off` of 1KB CHR page `page` of a set of 8KB banks.
pub open spec fn chr_1k_byte(chr: Seq<[u8; 8192]>, page: int, off: int) -> u8 {
    chr[page / 8][(page % 8) * 1024 + off]
}

impl JalecoSS88006Mapper {
    pub open spec fn wf(&self) -> bool {
        &&& self.cpu_ram@.len() == CPU_RAM_SIZE
        &&& self.vram@.len() == VRAM_SIZE
        &&& self.palette_ram@.len() == PALETTE_SIZE
        &&& self.prg_ram@.len() == PRG_RAM_8K
        &&& self.prg_rom@.len() > 0
        &&& 8 * self.chr_8k@.len() <= usize::MAX
    }

    pub open spec fn spec_prg_bank(&self, idx: int) -> int {
        self.prg_regs@[idx] as int % self.prg_rom@.len() as int
    }

    pub open spec fn spec_chr_bank(&self, idx: int) -> int {
        if self.chr_8k@.len() == 0 { 0 } else { self.chr_regs@[idx] as int % (8 * self.chr_8k@.len() as int) }
    }

    pub open spec fn spec_cpu_read(&self, addr: u16) -> u8 {
        let a = spec_mirror_addr(addr);
        let page = spec_addr_to_page(a);
        if page == 0x00 || page == 0x10 {
            self.cpu_ram@[a as int]
        } else if page == 0x60 || page == 0x70 {
            if self.prg_ram_enabled { self.prg_ram@[a - 0x6000] } else { 0 }
        } else if a >= 0x8000 {
            let slot = (a - 0x8000) / 0x2000;
            let bank = if slot == 3 { self.prg_rom@.len() - 1 } else { self.spec_prg_bank(slot) };
            self.prg_rom@[bank][(a % 0x2000) as int]
        } else {
            0
        }
    }

    pub open spec fn spec_ppu_read(&self, addr: u16) -> u8 {
        let a = (addr as int) % 0x4000;
        if a >= 0x3F00 {
            self.palette_ram@[palette_slot(a as u16)]
        } else if a < 0x2000 {
            if self.chr_8k@.len() == 0 { 0 } else { chr_1k_byte(self.chr_8k@, self.spec_chr_bank(a / 1024), a % 1024) }
        } else {
            self.vram@[nt_offset(a as u16, self.mirroring)]
        }
    }

    /// What `new` builds from its arguments.
    pub open spec fn built_by_new(flags: u8, prg_banks_16k: Vec<[u8; 16384]>, chr_banks_8k: Vec<[u8; 8192]>, has_battery: bool, sram_data: Option<Vec<u8>>, m: JalecoSS88006Mapper) -> bool {
        &&& (m.wf())
        &&& (m.prg_rom@.len() == 2 * prg_banks_16k@.len())
        &&& (forall|i: int| 0 <= i < m.prg_rom@.len() ==> #[trigger] m.prg_rom@[i]@ == prg_banks_16k@[i / 2]@.subrange(
                (i % 2) * 8192,
                (i % 2) * 8192 + 8192,
            ))
        &&& (m.chr_8k@ == chr_banks_8k@)
        &&& (m.prg_regs@ == seq![0usize, 0usize, 0usize])
        &&& (forall|i: int| 0 <= i < 8 ==> m.chr_regs@[i] == 0)
        &&& (!m.prg_ram_enabled && !m.prg_ram_writable)
        &&& (m.has_battery == has_battery)
        &&& (forall|i: int| 0 <= i < PRG_RAM_8K ==> #[trigger] m.prg_ram@[i] == (match sram_data {
                Some(d) => if i < d@.len() { d@[i] } else { 0u8 },
                None => 0u8,
            }))
        &&& (m.mirroring == spec_mirroring_from_flags(flags))
        &&& (m.irq_latch == 0 && m.irq_counter == 0 && !m.irq_enabled && !m.irq_pending)
        &&& (m.irq_width_mask == 0xFFFF)
        &&& (m.cpu_ram@ == Seq::new(CPU_RAM_SIZE as nat, |i: int| 0u8))
        &&& (m.vram@ == Seq::new(VRAM_SIZE as nat, |i: int| 0u8))
        &&& (m.palette_ram@ == Seq::new(PALETTE_SIZE as nat, |i: int| 0x0Fu8))
    }

    /// PRG RAM starts disabled, filled from the saved data.
    pub fn new(flags: u8, prg_banks_16k: Vec<[u8; 16384]>, chr_banks_8k: Vec<[u8; 8192]>, has_battery: bool, sram_data: Option<Vec<u8>>) -> (m: JalecoSS88006Mapper)
        requires
            prg_banks_16k@.len() > 0,
            2 * prg_banks_16k@.len() <= usize::MAX,
            8 * chr_banks_8k@.len() <= usize::MAX,
        ensures
            m.wf(),
            m.prg_rom@.len() == 2 * prg_banks_16k@.len(),
            forall|i: int| 0 <= i < m.prg_rom@.len() ==> #[trigger] m.prg_rom@[i]@ == prg_banks_16k@[i / 2]@.subrange(
                (i % 2) * 8192,
                (i % 2) * 8192 + 8192,
            ),
            m.chr_8k@ == chr_banks_8k@,
            m.prg_regs@ == seq![0usize, 0usize, 0usize],
            forall|i: int| 0 <= i < 8 ==> m.chr_regs@[i] == 0,
            !m.prg_ram_enabled && !m.prg_ram_writable,
            m.has_battery == has_battery,
            forall|i: int| 0 <= i < PRG_RAM_8K ==> #[trigger] m.prg_ram@[i] == (match sram_data {
                Some(d) => if i < d@.len() { d@[i] } else { 0u8 },
                None => 0u8,
            }),
            m.mirroring == spec_mirroring_from_flags(flags),
            m.irq_latch == 0 && m.irq_counter == 0 && !m.irq_enabled && !m.irq_pending,
            m.irq_width_mask == 0xFFFF,
            m.cpu_ram@ == Seq::new(CPU_RAM_SIZE as nat, |i: int| 0u8),
            m.vram@ == Seq::new(VRAM_SIZE as nat, |i: int| 0u8),
            m.palette_ram@ == Seq::new(PALETTE_SIZE as nat, |i: int| 0x0Fu8),
            Self::built_by_new(flags, prg_banks_16k, chr_banks_8k, has_battery, sram_data, m),
    {
        let prg_rom = split_16k_to_8k(&prg_banks_16k);
        let prg_ram = ram_with_saved(PRG_RAM_8K, &sram_data);
        let m = JalecoSS88006Mapper {
            cpu_ram: zeroed(CPU_RAM_SIZE),
            prg_rom,
            prg_regs: [0; 3],
            prg_ram,
            prg_ram_enabled: false,
            prg_ram_writable: false,
            has_battery,
            chr_8k: chr_banks_8k,
            chr_regs: [0; 8],
            mirroring: mirroring_from_flags(flags),
            irq_latch: 0,
            irq_counter: 0,
            irq_enabled: false,
            irq_pending: false,
            irq_width_mask: 0xFFFF,
            vram: zeroed(VRAM_SIZE),
            palette_ram: filled(PALETTE_SIZE, 0x0F),
            controllers: new_controllers(),
        };
        assert(m.prg_regs@ =~= seq![0usize, 0usize, 0usize]);
        m
    }

    pub fn prg_bank(&self, idx: usize) -> (r: usize)
        requires
            self.wf(),
            idx < 3,
        ensures
            r as int == self.spec_prg_bank(idx as int),
            r < self.prg_rom@.len(),
    {
        self.prg_regs[idx] % self.prg_rom.len()
    }

    pub fn chr_bank(&self, idx: usize) -> (r: usize)
        requires
            self.wf(),
            idx < 8,
        ensures
            r as int == self.spec_chr_bank(idx as int),
            self.chr_8k@.len() > 0 ==> r < 8 * self.chr_8k@.len(),
    {
        if self.chr_8k.len() == 0 {
            return 0;
        }
        self.chr_regs[idx] % (self.chr_8k.len() * 8)
    }

    /// The board after a write of `value` to register address `addr`
    /// ($8000-$FFFF), compared with the board `o` before it.
    pub open spec fn register_written(&self, o: &Self, addr: u16, value: u8) -> bool {
        &&& self.wf()
        &&& self.cpu_ram == o.cpu_ram
        &&& self.prg_rom == o.prg_rom
        &&& self.prg_ram == o.prg_ram
        &&& self.has_battery == o.has_battery
        &&& self.chr_8k == o.chr_8k
        &&& self.vram == o.vram
        &&& self.palette_ram == o.palette_ram
        &&& self.controllers == o.controllers
        &&& ({
                let n = (value & 0x0F) as usize;
                let reg = reg_of(addr);
                let sub = sub_of(addr);
                let prg_i: int = if reg == 0 && sub < 2 { 0 } else if reg == 0 { 1 } else { 2 };
                let prg_target = reg == 0 || (reg == 1 && sub < 2);
                &&& prg_target && sub % 2 == 0 ==> self.prg_regs@ == o.prg_regs@.update(
                    prg_i, (o.prg_regs@[prg_i] & 0x30) | n)
                &&& prg_target && sub % 2 == 1 ==> self.prg_regs@ == o.prg_regs@.update(
                    prg_i, (o.prg_regs@[prg_i] & 0x0F) | ((n & 3) << 4usize))
                &&& !prg_target ==> self.prg_regs == o.prg_regs
                &&& reg == 1 && sub == 2 ==> self.prg_ram_enabled == (n & 1 != 0)
                    && self.prg_ram_writable == (n & 2 != 0)
                &&& !(reg == 1 && sub == 2) ==> self.prg_ram_enabled == o.prg_ram_enabled
                    && self.prg_ram_writable == o.prg_ram_writable
                &&& 2 <= reg <= 5 && sub % 2 == 0 ==> self.chr_regs@ == o.chr_regs@.update(
                    (reg - 2) * 2 + sub / 2, (o.chr_regs@[(reg - 2) * 2 + sub / 2] & 0xF0) | n)
                &&& 2 <= reg <= 5 && sub % 2 == 1 ==> self.chr_regs@ == o.chr_regs@.update(
                    (reg - 2) * 2 + sub / 2, (o.chr_regs@[(reg - 2) * 2 + sub / 2] & 0x0F) | (n << 4usize))
                &&& !(2 <= reg <= 5) ==> self.chr_regs == o.chr_regs
                &&& reg == 6 ==> self.irq_latch == (o.irq_latch & !((0xFu16 << (4 * sub) as u16) as u16))
                    | ((n as u16) << (4 * sub) as u16)
                &&& reg != 6 ==> self.irq_latch == o.irq_latch
                &&& reg == 7 && sub == 0 ==> self.irq_counter == o.irq_latch && !self.irq_pending
                    && self.irq_enabled == o.irq_enabled && self.irq_width_mask == o.irq_width_mask
                &&& reg == 7 && sub == 1 ==> !self.irq_pending && self.irq_enabled == (n & 1 != 0)
                    && self.irq_width_mask == width_mask(n) && self.irq_counter == o.irq_counter
                &&& !(reg == 7 && sub < 2) ==> self.irq_counter == o.irq_counter
                    && self.irq_pending == o.irq_pending
                    && self.irq_enabled == o.irq_enabled
                    && self.irq_width_mask == o.irq_width_mask
                &&& reg == 7 && sub == 2 ==> self.mirroring == ss_mirroring(n)
                &&& !(reg == 7 && sub == 2) ==> self.mirroring == o.mirroring
            })
    }

    /// Each register takes a 4-bit nibble: PRG banks (low nibble, then two
    /// high bits), PRG RAM enable/write, CHR banks (low, high nibble), IRQ
    /// latch nibbles, IRQ reload/acknowledge, IRQ control, mirroring.
    pub fn write_register(&mut self, addr: u16, value: u8)
        requires
            old(self).wf(),
        ensures
            final(self).register_written(&*old(self), addr, value),
    {
        assert(value & 0x0F <= 15) by (bit_vector);
        let nibble = (value & 0x0F) as usize;
        let reg = (addr >> 12) & 0x07;
        let sub = addr & 0x03;
        assert(sub < 4) by (bit_vector)
            requires sub == addr & 3u16;
        assert(reg < 8) by (bit_vector)
            requires reg == (addr >> 12u16) & 7u16;
        if reg == 0 || (reg == 1 && sub < 2) {
            let i: usize = if reg == 0 && sub < 2 { 0 } else if reg == 0 { 1 } else { 2 };
            if sub % 2 == 0 {
                self.prg_regs[i] = (self.prg_regs[i] & 0x30) | nibble;
            } else {
                self.prg_regs[i] = (self.prg_regs[i] & 0x0F) | ((nibble & 0x03) << 4);
            }
        } else if reg == 1 && sub == 2 {
            self.prg_ram_enabled = nibble & 0x01 != 0;
            self.prg_ram_writable = nibble & 0x02 != 0;
        } else if reg >= 2 && reg <= 5 {
            let chr_idx = ((reg - 2) as usize) * 2 + (sub as usize) / 2;
            if sub % 2 == 0 {
                self.chr_regs[chr_idx] = (self.chr_regs[chr_idx] & 0xF0) | nibble;
            } else {
                let nn = nibble;
                assert(nn << 4usize <= 0xF0) by (bit_vector)
                    requires nn <= 15usize;
                self.chr_regs[chr_idx] = (self.chr_regs[chr_idx] & 0x0F) | (nibble << 4);
            }
        } else if reg == 6 {
            let shift = 4 * sub;
            self.irq_latch = (self.irq_latch & !(0x000Fu16 << shift)) | ((nibble as u16) << shift);
        } else if reg == 7 && sub == 0 {
            self.irq_counter = self.irq_latch;
            self.irq_pending = false;
        } else if reg == 7 && sub == 1 {
            self.irq_pending = false;
            self.irq_enabled = nibble & 0x01 != 0;
            self.irq_width_mask = if nibble & 0x08 != 0 {
                0x000F
            } else if nibble & 0x04 != 0 {
                0x0FFF
            } else if nibble & 0x02 != 0 {
                0x00FF
            } else {
                0xFFFF
            };
        } else if reg == 7 && sub == 2 {
            let m = nibble & 0x03;
            self.mirroring = if m == 0 {
                NametableMirror::Horizontal
            } else if m == 1 {
                NametableMirror::Vertical
            } else if m == 2 {
                NametableMirror::Lower
            } else {
                NametableMirror::Higher
            };
        }
    }

    pub fn cpu_peek(&self, addr: u16) -> (r: u8)
        requires
            self.wf(),
        ensures
            r == self.spec_cpu_read(addr),
    {
        let a = mirror_addr(addr);
        let page = addr_to_page(a);
        if page == 0x00 || page == 0x10 {
            self.cpu_ram[a as usize]
        } else if page == 0x60 || page == 0x70 {
            if self.prg_ram_enabled {
                self.prg_ram[(a - 0x6000) as usize]
            } else {
                0
            }
        } else if a >= 0x8000 {
            let slot = ((a - 0x8000) / 0x2000) as usize;
            let bank = if slot == 3 { self.prg_rom.len() - 1 } else { self.prg_bank(slot) };
            self.prg_rom[bank][(a % 0x2000) as usize]
        } else {
            0
        }
    }

    pub fn cpu_read(&self, addr: u16) -> (r: u8)
        requires
            self.wf(),
        ensures
            r == self.spec_cpu_read(addr),
    {
        self.cpu_peek(addr)
    }

    /// RAM below $2000; PRG RAM at $6000 when enabled and writable; mapper
    /// registers at $8000-$FFFF.
    pub fn cpu_write(&mut self, addr: u16, value: u8)
        requires
            old(self).wf(),
        ensures
            final(self).wf(),
            ({
                let a = spec_mirror_addr(addr);
                let page = spec_addr_to_page(a);
                &&& (page == 0x00 || page == 0x10) ==> final(self).cpu_ram@ == old(self).cpu_ram@.update(a as int, value)
                &&& !(page == 0x00 || page == 0x10) ==> final(self).cpu_ram == old(self).cpu_ram
                &&& (page == 0x60 || page == 0x70) && old(self).prg_ram_enabled && old(self).prg_ram_writable
                    ==> final(self).prg_ram@ == old(self).prg_ram@.update(a - 0x6000, value)
                &&& !((page == 0x60 || page == 0x70) && old(self).prg_ram_enabled && old(self).prg_ram_writable)
                    ==> final(self).prg_ram == old(self).prg_ram
                &&& a < 0x8000 ==> final(self).prg_regs == old(self).prg_regs && final(self).chr_regs == old(self).chr_regs
                    && final(self).mirroring == old(self).mirroring && final(self).irq_pending == old(self).irq_pending
                    && final(self).irq_counter == old(self).irq_counter && final(self).irq_latch == old(self).irq_latch
                    && final(self).prg_ram_enabled == old(self).prg_ram_enabled
                    && final(self).prg_ram_writable == old(self).prg_ram_writable
                &&& a >= 0x8000 ==> final(self).register_written(&*old(self), a, value)
            }),
            final(self).prg_rom == old(self).prg_rom,
            final(self).chr_8k == old(self).chr_8k,
            final(self).vram == old(self).vram,
            final(self).palette_ram == old(self).palette_ram,
    {
        let a = mirror_addr(addr);
        let page = addr_to_page(a);
        if page == 0x00 || page == 0x10 {
            self.cpu_ram.set(a as usize, value);
        } else if page == 0x60 || page == 0x70 {
            if self.prg_ram_enabled && self.prg_ram_writable {
                self.prg_ram.set((a - 0x6000) as usize, value);
            }
        } else if a >= 0x8000 {
            self.write_register(a, value);
        }
    }

    /// One CPU cycle of the IRQ counter: the low `width` bits count down,
    /// and reaching zero raises the IRQ.
    pub fn cpu_cycle(&mut self, ppu_dot: u64)
        ensures
            !old(self).irq_enabled ==> *final(self) == *old(self),
            old(self).irq_enabled ==> ({
                let mask = old(self).irq_width_mask;
                let dec = (old(self).irq_counter & mask).wrapping_sub(1) & mask;
                &&& final(self).irq_counter == (old(self).irq_counter & !mask) | dec
                &&& final(self).irq_pending == (old(self).irq_pending || dec == 0)
            }),
            final(self).cpu_ram == old(self).cpu_ram,
            final(self).prg_rom == old(self).prg_rom,
            final(self).prg_regs == old(self).prg_regs,
            final(self).prg_ram == old(self).prg_ram,
            final(self).chr_8k == old(self).chr_8k,
            final(self).chr_regs == old(self).chr_regs,
            final(self).mirroring == old(self).mirroring,
            final(self).irq_latch == old(self).irq_latch,
            final(self).irq_enabled == old(self).irq_enabled,
            final(self).irq_width_mask == old(self).irq_width_mask,
            final(self).vram == old(self).vram,
            final(self).palette_ram == old(self).palette_ram,
    {
        if !self.irq_enabled {
            return;
        }
        let active = self.irq_counter & self.irq_width_mask;
        let decremented = active.wrapping_sub(1) & self.irq_width_mask;
        if decremented == 0 {
            self.irq_pending = true;
        }
        self.irq_counter = (self.irq_counter & !self.irq_width_mask) | decremented;
    }

    pub fn ppu_read(&self, addr: u16) -> (r: u8)
        requires
            self.wf(),
        ensures
            r == self.spec_ppu_read(addr),
    {
        let a = addr % 0x4000;
        if a >= 0x3F00 {
            return self.palette_ram[palette_index(a)];
        }
        if a < 0x2000 {
            if self.chr_8k.len() == 0 {
                return 0;
            }
            let bank = self.chr_bank((a / 1024) as usize);
            self.chr_8k[bank / 8][(bank % 8) * 1024 + (a % 1024) as usize]
        } else {
            self.vram[mirror_nametable_addr(a, self.mirroring) as usize]
        }
    }

    pub fn ppu_write(&mut self, addr: u16, value: u8)
        requires
            old(self).wf(),
        ensures
            final(self).wf(),
            ({
                let a = (addr as int) % 0x4000;
                &&& a >= 0x3F00 ==> final(self).palette_ram@ == old(self).palette_ram@.update(palette_slot(a as u16), value)
                    && final(self).vram == old(self).vram
                &&& 0x2000 <= a < 0x3F00 ==> final(self).vram@ == old(self).vram@.update(nt_offset(a as u16, old(self).mirroring), value)
                    && final(self).palette_ram == old(self).palette_ram
                &&& a < 0x2000 ==> final(self).vram == old(self).vram && final(self).palette_ram == old(self).palette_ram
            }),
            final(self).cpu_ram == old(self).cpu_ram,
            final(self).prg_regs == old(self).prg_regs,
            final(self).chr_regs == old(self).chr_regs,
            final(self).mirroring == old(self).mirroring,
    {
        let a = addr % 0x4000;
        if a >= 0x3F00 {
            let i = palette_index(a);
            self.palette_ram.set(i, value);
        } else if a >= 0x2000 {
            let i = mirror_nametable_addr(a, self.mirroring) as usize;
            self.vram.set(i, value);
        }
    }

    /// The PRG RAM, for battery saves, when the cartridge has a battery.
    pub fn sram_data(&self) -> (r: Option<&[u8]>)
        ensures
            !self.has_battery ==> r is None,
            self.has_battery ==> (r matches Some(d) && d@ == self.prg_ram@),
    {
        if self.has_battery {
            Some(self.prg_ram.as_slice())
        } else {
            None
        }
    }

    /// The battery-backed PRG RAM, for filling from a save.
    pub fn sram_data_mut(&mut self) -> (r: Option<&mut [u8]>)
        ensures
            !old(self).has_battery ==> r is None && final(self).prg_ram == old(self).prg_ram,
            old(self).has_battery ==> (r matches Some(d) && d@ == old(self).prg_ram@
                && final(self).prg_ram@ == final(d)@),
            final(self).cpu_ram == old(self).cpu_ram,
            final(self).prg_rom == old(self).prg_rom,
            final(self).prg_regs == old(self).prg_regs,
            final(self).prg_ram_enabled == old(self).prg_ram_enabled,
            final(self).prg_ram_writable == old(self).prg_ram_writable,
            final(self).has_battery == old(self).has_battery,
            final(self).chr_8k == old(self).chr_8k,
            final(self).chr_regs == old(self).chr_regs,
            final(self).mirroring == old(self).mirroring,
            final(self).irq_latch == old(self).irq_latch,
            final(self).irq_counter == old(self).irq_counter,
            final(self).irq_enabled == old(self).irq_enabled,
            final(self).irq_pending == old(self).irq_pending,
            final(self).irq_width_mask == old(self).irq_width_mask,
            final(self).vram == old(self).vram,
            final(self).palette_ram == old(self).palette_ram,
            final(self).controllers == old(self).controllers,
    {
        if self.has_battery {
            Some(self.prg_ram.as_mut_slice())
        } else {
            None
        }
    }

    pub fn code_start(&self) -> (r: u16)
        requires
            self.wf(),
        ensures
            r == word(self.spec_cpu_read(RESET_TARGET_ADDR), self.spec_cpu_read(0xFFFD)),
    {
        make_word(self.cpu_peek(RESET_TARGET_ADDR), self.cpu_peek(RESET_TARGET_ADDR + 1))
    }

    pub fn poll_irq(&self) -> (r: bool)
        ensures
            r == self.irq_pending,
    {
        self.irq_pending
    }

    pub fn mapper_id(&self) -> (r: u8)
        ensures
            r == 18,
    {
        18
    }
}

impl JalecoSS88006Mapper {
    /// The bytes `save_state` appends.
    pub open spec fn state_bytes(&self) -> Seq<u8> {
        self.cpu_ram@
            + enc_u8(self.prg_regs@[0] as u8)
            + enc_u8(self.prg_regs@[1] as u8)
            + enc_u8(self.prg_regs@[2] as u8)
            + self.prg_ram@
            + enc_bool(self.prg_ram_enabled)
            + enc_bool(self.prg_ram_writable)
            + enc_u8(self.chr_regs@[0] as u8)
            + enc_u8(self.chr_regs@[1] as u8)
            + enc_u8(self.chr_regs@[2] as u8)
            + enc_u8(self.chr_regs@[3] as u8)
            + enc_u8(self.chr_regs@[4] as u8)
            + enc_u8(self.chr_regs@[5] as u8)
            + enc_u8(self.chr_regs@[6] as u8)
            + enc_u8(self.chr_regs@[7] as u8)
            + enc_u8(mirror_code(self.mirroring))
            + enc_u16(self.irq_latch)
            + enc_u16(self.irq_counter)
            + enc_bool(self.irq_enabled)
            + enc_bool(self.irq_pending)
            + enc_u16(self.irq_width_mask)
            + self.vram@
            + self.palette_ram@
            + controllers_bytes(self.controllers)
    }

    /// Length of the saved state.
    pub open spec fn state_len(&self) -> nat {
        (CPU_RAM_SIZE + PRG_RAM_8K + VRAM_SIZE + PALETTE_SIZE + 2 * CONTROLLER_STATE_LEN + 22) as nat
    }

    /// Every register that the state stores in fewer bits than it is held in
    /// fits in those bits.
    pub open spec fn fits(&self) -> bool {
        &&& self.prg_regs@[0] < 256
        &&& self.prg_regs@[1] < 256
        &&& self.prg_regs@[2] < 256
        &&& self.chr_regs@[0] < 256
        &&& self.chr_regs@[1] < 256
        &&& self.chr_regs@[2] < 256
        &&& self.chr_regs@[3] < 256
        &&& self.chr_regs@[4] < 256
        &&& self.chr_regs@[5] < 256
        &&& self.chr_regs@[6] < 256
        &&& self.chr_regs@[7] < 256
    }

    /// The stored bytes at `p` hold a state that this cartridge can take.
    pub open spec fn state_valid(&self, d: Seq<u8>, p: int) -> bool {
        &&& mirror_from_code(d[(p + CPU_RAM_SIZE + PRG_RAM_8K + 13)]) is Some
    }

    /// What `load_state` answers for the bytes at `p`.
    pub open spec fn load_outcome(&self, d: Seq<u8>, p: int) -> Result<(), StateError> {
        if p + self.state_len() > d.len() {
            Err(StateError::UnexpectedEof)
        } else if !self.state_valid(d, p) {
            Err(StateError::InvalidValue)
        } else {
            Ok(())
        }
    }

    /// Every saved field holds what the bytes at `p` store.
    pub open spec fn loaded_from(&self, d: Seq<u8>, p: int) -> bool {
        &&& self.cpu_ram@ == d.subrange(p, p + CPU_RAM_SIZE)
        &&& self.prg_regs@[0] == d[(p + CPU_RAM_SIZE)] as usize
        &&& self.prg_regs@[1] == d[(p + CPU_RAM_SIZE + 1)] as usize
        &&& self.prg_regs@[2] == d[(p + CPU_RAM_SIZE + 2)] as usize
        &&& self.prg_ram@ == d.subrange((p + CPU_RAM_SIZE + 3), (p + CPU_RAM_SIZE + 3) + PRG_RAM_8K)
        &&& self.prg_ram_enabled == (d[(p + CPU_RAM_SIZE + PRG_RAM_8K + 3)] != 0)
        &&& self.prg_ram_writable == (d[(p + CPU_RAM_SIZE + PRG_RAM_8K + 4)] != 0)
        &&& self.chr_regs@[0] == d[(p + CPU_RAM_SIZE + PRG_RAM_8K + 5)] as usize
        &&& self.chr_regs@[1] == d[(p + CPU_RAM_SIZE + PRG_RAM_8K + 6)] as usize
        &&& self.chr_regs@[2] == d[(p + CPU_RAM_SIZE + PRG_RAM_8K + 7)] as usize
        &&& self.chr_regs@[3] == d[(p + CPU_RAM_SIZE + PRG_RAM_8K + 8)] as usize
        &&& self.chr_regs@[4] == d[(p + CPU_RAM_SIZE + PRG_RAM_8K + 9)] as usize
        &&& self.chr_regs@[5] == d[(p + CPU_RAM_SIZE + PRG_RAM_8K + 10)] as usize
        &&& self.chr_regs@[6] == d[(p + CPU_RAM_SIZE + PRG_RAM_8K + 11)] as usize
        &&& self.chr_regs@[7] == d[(p + CPU_RAM_SIZE + PRG_RAM_8K + 12)] as usize
        &&& self.mirroring == mirror_from_code(d[(p + CPU_RAM_SIZE + PRG_RAM_8K + 13)])->0
        &&& self.irq_latch == dec_u16_at(d, (p + CPU_RAM_SIZE + PRG_RAM_8K + 14))
        &&& self.irq_counter == dec_u16_at(d, (p + CPU_RAM_SIZE + PRG_RAM_8K + 16))
        &&& self.irq_enabled == (d[(p + CPU_RAM_SIZE + PRG_RAM_8K + 18)] != 0)
        &&& self.irq_pending == (d[(p + CPU_RAM_SIZE + PRG_RAM_8K + 19)] != 0)
        &&& self.irq_width_mask == dec_u16_at(d, (p + CPU_RAM_SIZE + PRG_RAM_8K + 20))
        &&& self.vram@ == d.subrange((p + CPU_RAM_SIZE + PRG_RAM_8K + 22), (p + CPU_RAM_SIZE + PRG_RAM_8K + 22) + VRAM_SIZE)
        &&& self.palette_ram@ == d.subrange((p + CPU_RAM_SIZE + PRG_RAM_8K + VRAM_SIZE + 22), (p + CPU_RAM_SIZE + PRG_RAM_8K + VRAM_SIZE + 22) + PALETTE_SIZE)
        &&& self.controllers@[0] == controller_at(d, (p + CPU_RAM_SIZE + PRG_RAM_8K + VRAM_SIZE + PALETTE_SIZE + 22))
        &&& self.controllers@[1] == controller_at(d, (p + CPU_RAM_SIZE + PRG_RAM_8K + VRAM_SIZE + PALETTE_SIZE + 22) + CONTROLLER_STATE_LEN)
    }

    /// The two agree on every saved field.
    pub open spec fn same_state(&self, other: &Self) -> bool {
        &&& self.cpu_ram@ == other.cpu_ram@
        &&& self.prg_regs@[0] == other.prg_regs@[0]
        &&& self.prg_regs@[1] == other.prg_regs@[1]
        &&& self.prg_regs@[2] == other.prg_regs@[2]
        &&& self.prg_ram@ == other.prg_ram@
        &&& self.prg_ram_enabled == other.prg_ram_enabled
        &&& self.prg_ram_writable == other.prg_ram_writable
        &&& self.chr_regs@[0] == other.chr_regs@[0]
        &&& self.chr_regs@[1] == other.chr_regs@[1]
        &&& self.chr_regs@[2] == other.chr_regs@[2]
        &&& self.chr_regs@[3] == other.chr_regs@[3]
        &&& self.chr_regs@[4] == other.chr_regs@[4]
        &&& self.chr_regs@[5] == other.chr_regs@[5]
        &&& self.chr_regs@[6] == other.chr_regs@[6]
        &&& self.chr_regs@[7] == other.chr_regs@[7]
        &&& self.mirroring == other.mirroring
        &&& self.irq_latch == other.irq_latch
        &&& self.irq_counter == other.irq_counter
        &&& self.irq_enabled == other.irq_enabled
        &&& self.irq_pending == other.irq_pending
        &&& self.irq_width_mask == other.irq_width_mask
        &&& self.vram@ == other.vram@
        &&& self.palette_ram@ == other.palette_ram@
        &&& self.controllers@ == other.controllers@
    }

    /// The two agree on every field that the state does not store.
    pub open spec fn keeps_unsaved(&self, other: &Self) -> bool {
        &&& self.prg_rom == other.prg_rom
        &&& self.has_battery == other.has_battery
        &&& self.chr_8k == other.chr_8k
    }

    /// The two come from cartridges of the same shape.
    pub open spec fn same_layout(&self, other: &Self) -> bool {
        true
    }

    #[verifier::spinoff_prover]
    pub fn save_state(&self, w: &mut SavestateWriter)
        ensures
            final(w).buf@ == old(w).buf@ + self.state_bytes(),
    {
        let ghost b = w.buf@;
        let ghost s0 = self.cpu_ram@;
        let ghost s1 = s0 + enc_u8(self.prg_regs@[0] as u8);
        let ghost s2 = s1 + enc_u8(self.prg_regs@[1] as u8);
        let ghost s3 = s2 + enc_u8(self.prg_regs@[2] as u8);
        let ghost s4 = s3 + self.prg_ram@;
        let ghost s5 = s4 + enc_bool(self.prg_ram_enabled);
        let ghost s6 = s5 + enc_bool(self.prg_ram_writable);
        let ghost s7 = s6 + enc_u8(self.chr_regs@[0] as u8);
        let ghost s8 = s7 + enc_u8(self.chr_regs@[1] as u8);
        let ghost s9 = s8 + enc_u8(self.chr_regs@[2] as u8);
        let ghost s10 = s9 + enc_u8(self.chr_regs@[3] as u8);
        let ghost s11 = s10 + enc_u8(self.chr_regs@[4] as u8);
        let ghost s12 = s11 + enc_u8(self.chr_regs@[5] as u8);
        let ghost s13 = s12 + enc_u8(self.chr_regs@[6] as u8);
        let ghost s14 = s13 + enc_u8(self.chr_regs@[7] as u8);
        let ghost s15 = s14 + enc_u8(mirror_code(self.mirroring));
        let ghost s16 = s15 + enc_u16(self.irq_latch);
        let ghost s17 = s16 + enc_u16(self.irq_counter);
        let ghost s18 = s17 + enc_bool(self.irq_enabled);
        let ghost s19 = s18 + enc_bool(self.irq_pending);
        let ghost s20 = s19 + enc_u16(self.irq_width_mask);
        let ghost s21 = s20 + self.vram@;
        let ghost s22 = s21 + self.palette_ram@;
        let ghost s23 = s22 + controllers_bytes(self.controllers);
        w.write_bytes(self.cpu_ram.as_slice());
        w.write_u8(self.prg_regs[0] as u8);
        proof {
            lemma_add_assoc(b, s0, enc_u8(self.prg_regs@[0] as u8));
        }
        w.write_u8(self.prg_regs[1] as u8);
        proof {
            lemma_add_assoc(b, s1, enc_u8(self.prg_regs@[1] as u8));
        }
        w.write_u8(self.prg_regs[2] as u8);
        proof {
            lemma_add_assoc(b, s2, enc_u8(self.prg_regs@[2] as u8));
        }
        w.write_bytes(self.prg_ram.as_slice());
        proof {
            lemma_add_assoc(b, s3, self.prg_ram@);
        }
        w.write_bool(self.prg_ram_enabled);
        proof {
            lemma_add_assoc(b, s4, enc_bool(self.prg_ram_enabled));
        }
        w.write_bool(self.prg_ram_writable);
        proof {
            lemma_add_assoc(b, s5, enc_bool(self.prg_ram_writable));
        }
        w.write_u8(self.chr_regs[0] as u8);
        proof {
            lemma_add_assoc(b, s6, enc_u8(self.chr_regs@[0] as u8));
        }
        w.write_u8(self.chr_regs[1] as u8);
        proof {
            lemma_add_assoc(b, s7, enc_u8(self.chr_regs@[1] as u8));
        }
        w.write_u8(self.chr_regs[2] as u8);
        proof {
            lemma_add_assoc(b, s8, enc_u8(self.chr_regs@[2] as u8));
        }
        w.write_u8(self.chr_regs[3] as u8);
        proof {
            lemma_add_assoc(b, s9, enc_u8(self.chr_regs@[3] as u8));
        }
        w.write_u8(self.chr_regs[4] as u8);
        proof {
            lemma_add_assoc(b, s10, enc_u8(self.chr_regs@[4] as u8));
        }
        w.write_u8(self.chr_regs[5] as u8);
        proof {
            lemma_add_assoc(b, s11, enc_u8(self.chr_regs@[5] as u8));
        }
        w.write_u8(self.chr_regs[6] as u8);
        proof {
            lemma_add_assoc(b, s12, enc_u8(self.chr_regs@[6] as u8));
        }
        w.write_u8(self.chr_regs[7] as u8);
        proof {
            lemma_add_assoc(b, s13, enc_u8(self.chr_regs@[7] as u8));
        }
        save_mirroring(w, self.mirroring);
        proof {
            lemma_add_assoc(b, s14, enc_u8(mirror_code(self.mirroring)));
        }
        w.write_u16(self.irq_latch);
        proof {
            lemma_add_assoc(b, s15, enc_u16(self.irq_latch));
        }
        w.write_u16(self.irq_counter);
        proof {
            lemma_add_assoc(b, s16, enc_u16(self.irq_counter));
        }
        w.write_bool(self.irq_enabled);
        proof {
            lemma_add_assoc(b, s17, enc_bool(self.irq_enabled));
        }
        w.write_bool(self.irq_pending);
        proof {
            lemma_add_assoc(b, s18, enc_bool(self.irq_pending));
        }
        w.write_u16(self.irq_width_mask);
        proof {
            lemma_add_assoc(b, s19, enc_u16(self.irq_width_mask));
        }
        w.write_bytes(self.vram.as_slice());
        proof {
            lemma_add_assoc(b, s20, self.vram@);
        }
        w.write_bytes(self.palette_ram.as_slice());
        proof {
            lemma_add_assoc(b, s21, self.palette_ram@);
        }
        save_controllers(w, &self.controllers);
        proof {
            lemma_add_assoc(b, s22, controllers_bytes(self.controllers));
        }
    }

    /// Restores a state written by `save_state`. Nothing changes unless the
    /// whole state is there and holds values this cartridge can take.
    #[verifier::spinoff_prover]
    pub fn load_state(&mut self, r: &mut SavestateReader) -> (res: Result<(), StateError>)
        requires
            old(self).wf(),
            old(r).wf(),
        ensures
            final(r).wf(),
            final(r).data@ == old(r).data@,
            res == old(self).load_outcome(old(r).data@, old(r).pos as int),
            res is Err ==> *final(self) == *old(self) && final(r).pos == old(r).pos,
            res is Ok ==> final(self).wf() && final(self).loaded_from(old(r).data@, old(r).pos as int)
                && final(self).keeps_unsaved(&*old(self)) && final(self).same_layout(&*old(self))
                && final(r).pos == old(r).pos + old(self).state_len(),
    {
        let ghost d = r.data@;
        let ghost p = r.pos as int;
        let start = r.pos;
        if r.remaining_len() < CPU_RAM_SIZE + PRG_RAM_8K + VRAM_SIZE + PALETTE_SIZE + 2 * CONTROLLER_STATE_LEN + 22 {
            return Err(StateError::UnexpectedEof);
        }
        let cpu_ram = r.take_bytes(CPU_RAM_SIZE);
        let prg0 = r.take_u8() as usize;
        let prg1 = r.take_u8() as usize;
        let prg2 = r.take_u8() as usize;
        let prg_ram = r.take_bytes(PRG_RAM_8K);
        let prg_ram_enabled = r.take_bool();
        let prg_ram_writable = r.take_bool();
        let chr0 = r.take_u8() as usize;
        let chr1 = r.take_u8() as usize;
        let chr2 = r.take_u8() as usize;
        let chr3 = r.take_u8() as usize;
        let chr4 = r.take_u8() as usize;
        let chr5 = r.take_u8() as usize;
        let chr6 = r.take_u8() as usize;
        let chr7 = r.take_u8() as usize;
        let mirroring_code = r.take_u8();
        let irq_latch = r.take_u16();
        let irq_counter = r.take_u16();
        let irq_enabled = r.take_bool();
        let irq_pending = r.take_bool();
        let irq_width_mask = r.take_u16();
        let vram = r.take_bytes(VRAM_SIZE);
        let palette_ram = r.take_bytes(PALETTE_SIZE);
        let controllers = take_controllers(r);
        let mirroring = match mirroring_from_code(mirroring_code) {
            Some(m) => m,
            None => {
                r.rewind(start);
                return Err(StateError::InvalidValue);
            },
        };
        self.cpu_ram = cpu_ram;
        self.prg_ram = prg_ram;
        self.prg_ram_enabled = prg_ram_enabled;
        self.prg_ram_writable = prg_ram_writable;
        self.mirroring = mirroring;
        self.irq_latch = irq_latch;
        self.irq_counter = irq_counter;
        self.irq_enabled = irq_enabled;
        self.irq_pending = irq_pending;
        self.irq_width_mask = irq_width_mask;
        self.vram = vram;
        self.palette_ram = palette_ram;
        self.controllers = controllers;
        self.prg_regs = [prg0, prg1, prg2];
        self.chr_regs = [chr0, chr1, chr2, chr3, chr4, chr5, chr6, chr7];
        Ok(())
    }

    /// Saving a state and loading it into a cartridge of the same shape
    /// succeeds and restores every saved field.
    #[verifier::spinoff_prover]
    pub proof fn lemma_state_roundtrip(o: Self, m: Self, n: Self, d: Seq<u8>, p: int)
        requires
            o.wf(),
            m.wf(),
            m.fits(),
            o.same_layout(&m),
            n.same_layout(&m),
            stored_at(d, p, m.state_bytes()),
        ensures
            o.load_outcome(d, p) == Ok::<(), StateError>(()),
            n.loaded_from(d, p) ==> n.same_state(&m),
    {
        let s0 = m.cpu_ram@;
        let s1 = s0 + enc_u8(m.prg_regs@[0] as u8);
        let s2 = s1 + enc_u8(m.prg_regs@[1] as u8);
        let s3 = s2 + enc_u8(m.prg_regs@[2] as u8);
        let s4 = s3 + m.prg_ram@;
        let s5 = s4 + enc_bool(m.prg_ram_enabled);
        let s6 = s5 + enc_bool(m.prg_ram_writable);
        let s7 = s6 + enc_u8(m.chr_regs@[0] as u8);
        let s8 = s7 + enc_u8(m.chr_regs@[1] as u8);
        let s9 = s8 + enc_u8(m.chr_regs@[2] as u8);
        let s10 = s9 + enc_u8(m.chr_regs@[3] as u8);
        let s11 = s10 + enc_u8(m.chr_regs@[4] as u8);
        let s12 = s11 + enc_u8(m.chr_regs@[5] as u8);
        let s13 = s12 + enc_u8(m.chr_regs@[6] as u8);
        let s14 = s13 + enc_u8(m.chr_regs@[7] as u8);
        let s15 = s14 + enc_u8(mirror_code(m.mirroring));
        let s16 = s15 + enc_u16(m.irq_latch);
        let s17 = s16 + enc_u16(m.irq_counter);
        let s18 = s17 + enc_bool(m.irq_enabled);
        let s19 = s18 + enc_bool(m.irq_pending);
        let s20 = s19 + enc_u16(m.irq_width_mask);
        let s21 = s20 + m.vram@;
        let s22 = s21 + m.palette_ram@;
        let s23 = s22 + controllers_bytes(m.controllers);
        lemma_stored_split(d, p, s22, controllers_bytes(m.controllers));
        lemma_stored_split(d, p, s21, m.palette_ram@);
        lemma_stored_split(d, p, s20, m.vram@);
        lemma_stored_split(d, p, s19, enc_u16(m.irq_width_mask));
        lemma_stored_split(d, p, s18, enc_bool(m.irq_pending));
        lemma_stored_split(d, p, s17, enc_bool(m.irq_enabled));
        lemma_stored_split(d, p, s16, enc_u16(m.irq_counter));
        lemma_stored_split(d, p, s15, enc_u16(m.irq_latch));
        lemma_stored_split(d, p, s14, enc_u8(mirror_code(m.mirroring)));
        lemma_stored_split(d, p, s13, enc_u8(m.chr_regs@[7] as u8));
        lemma_stored_split(d, p, s12, enc_u8(m.chr_regs@[6] as u8));
        lemma_stored_split(d, p, s11, enc_u8(m.chr_regs@[5] as u8));
        lemma_stored_split(d, p, s10, enc_u8(m.chr_regs@[4] as u8));
        lemma_stored_split(d, p, s9, enc_u8(m.chr_regs@[3] as u8));
        lemma_stored_split(d, p, s8, enc_u8(m.chr_regs@[2] as u8));
        lemma_stored_split(d, p, s7, enc_u8(m.chr_regs@[1] as u8));
        lemma_stored_split(d, p, s6, enc_u8(m.chr_regs@[0] as u8));
        lemma_stored_split(d, p, s5, enc_bool(m.prg_ram_writable));
        lemma_stored_split(d, p, s4, enc_bool(m.prg_ram_enabled));
        lemma_stored_split(d, p, s3, m.prg_ram@);
        lemma_stored_split(d, p, s2, enc_u8(m.prg_regs@[2] as u8));
        lemma_stored_split(d, p, s1, enc_u8(m.prg_regs@[1] as u8));
        lemma_stored_split(d, p, s0, enc_u8(m.prg_regs@[0] as u8));
        lemma_stored_u8(d, (p + CPU_RAM_SIZE), m.prg_regs@[0] as u8);
        lemma_stored_u8(d, (p + CPU_RAM_SIZE + 1), m.prg_regs@[1] as u8);
        lemma_stored_u8(d, (p + CPU_RAM_SIZE + 2), m.prg_regs@[2] as u8);
        lemma_stored_bool(d, (p + CPU_RAM_SIZE + PRG_RAM_8K + 3), m.prg_ram_enabled);
        lemma_stored_bool(d, (p + CPU_RAM_SIZE + PRG_RAM_8K + 4), m.prg_ram_writable);
        lemma_stored_u8(d, (p + CPU_RAM_SIZE + PRG_RAM_8K + 5), m.chr_regs@[0] as u8);
        lemma_stored_u8(d, (p + CPU_RAM_SIZE + PRG_RAM_8K + 6), m.chr_regs@[1] as u8);
        lemma_stored_u8(d, (p + CPU_RAM_SIZE + PRG_RAM_8K + 7), m.chr_regs@[2] as u8);
        lemma_stored_u8(d, (p + CPU_RAM_SIZE + PRG_RAM_8K + 8), m.chr_regs@[3] as u8);
        lemma_stored_u8(d, (p + CPU_RAM_SIZE + PRG_RAM_8K + 9), m.chr_regs@[4] as u8);
        lemma_stored_u8(d, (p + CPU_RAM_SIZE + PRG_RAM_8K + 10), m.chr_regs@[5] as u8);
        lemma_stored_u8(d, (p + CPU_RAM_SIZE + PRG_RAM_8K + 11), m.chr_regs@[6] as u8);
        lemma_stored_u8(d, (p + CPU_RAM_SIZE + PRG_RAM_8K + 12), m.chr_regs@[7] as u8);
        lemma_stored_u8(d, (p + CPU_RAM_SIZE + PRG_RAM_8K + 13), mirror_code(m.mirroring));
        lemma_mirror_code_roundtrip(m.mirroring);
        lemma_stored_u16(d, (p + CPU_RAM_SIZE + PRG_RAM_8K + 14), m.irq_latch);
        lemma_stored_u16(d, (p + CPU_RAM_SIZE + PRG_RAM_8K + 16), m.irq_counter);
        lemma_stored_bool(d, (p + CPU_RAM_SIZE + PRG_RAM_8K + 18), m.irq_enabled);
        lemma_stored_bool(d, (p + CPU_RAM_SIZE + PRG_RAM_8K + 19), m.irq_pending);
        lemma_stored_u16(d, (p + CPU_RAM_SIZE + PRG_RAM_8K + 20), m.irq_width_mask);
        lemma_stored_controllers(d, (p + CPU_RAM_SIZE + PRG_RAM_8K + VRAM_SIZE + PALETTE_SIZE + 22), m.controllers);
        if n.loaded_from(d, p) {
            assert(n.controllers@ =~= m.controllers@);
        }
    }
}

impl JalecoSS88006Mapper {
    /// Where a bulk copy of `size` bytes from `addr` reads: the selected 1KB
    /// pattern page from the address on, or the nametable RAM from the
    /// mirrored address on ($2000-$3FFF); nothing without CHR.
    pub open spec fn copy_run(&self, addr: u16, size: int) -> Option<(Seq<u8>, int, int)> {
        let a = (addr as int) % 0x4000;
        if a < 0x2000 {
            if self.chr_8k@.len() == 0 {
                None
            } else {
                let b = self.spec_chr_bank(a / 1024);
                Some((self.chr_8k@[b / 8]@, (b % 8) * 1024 + a % 1024, size))
            }
        } else {
            Some((self.vram@, nt_offset(a as u16, self.mirroring), size))
        }
    }

    /// Copies `size` bytes of PPU memory from `addr` to the front of `dest`,
    /// from one run of the memory behind that address; the run must hold
    /// them.
    pub fn ppu_copy(&self, addr: u16, dest: &mut Vec<u8>, size: usize)
        requires
            self.wf(),
            size <= old(dest)@.len(),
            ({
                let a = (addr as int) % 0x4000;
                &&& a < 0x2000 ==> a % 1024 + size <= 1024
                &&& a >= 0x2000 ==> nt_offset(a as u16, self.mirroring) + size <= VRAM_SIZE
            }),
        ensures
            match self.copy_run(addr, size as int) {
                Some((src, off, n)) => final(dest)@ == copied_into(old(dest)@, src, off, n),
                None => final(dest)@ == old(dest)@,
            },
    {
        let a = addr % 0x4000;
        if a < 0x2000 {
            if self.chr_8k.len() > 0 {
                let b = self.chr_bank((a / 1024) as usize);
                copy_bank_to_front(dest, &self.chr_8k[b / 8], (b % 8) * 1024 + (a % 1024) as usize, size);
            }
        } else {
            let v = mirror_nametable_addr(a, self.mirroring) as usize;
            copy_vec_to_front(dest, &self.vram, v, size);
        }
    }
}

} // verus!
