//! NES-EVENT (mapper 105): an MMC1 serial port driving two PRG chips, a
//! start-up lock that holds the first 32KB until the I bit has been cleared
//! and set again, and a 30-bit CPU-cycle timer raising an IRQ.

use vstd::prelude::*;
use crate::bus::{NametableMirror, CPU_RAM_SIZE, VRAM_SIZE, PALETTE_SIZE, RESET_TARGET_ADDR, nt_offset, mirror_nametable_addr, palette_slot, palette_index, word, make_word};
use crate::ppu_bus::{zeroed, filled};
use crate::controller::Controller;
use crate::mapper::common::new_controllers;

use crate::savestate::{SavestateWriter, SavestateReader, StateError, enc_u8, enc_bool, enc_u32, dec_u32_at, stored_at, lemma_add_assoc, lemma_stored_split, lemma_stored_u8, lemma_stored_bool, lemma_stored_u32};
use crate::controller::{controllers_bytes, controller_at, save_controllers, take_controllers, lemma_stored_controllers, CONTROLLER_STATE_LEN};
use crate::ppu_bus::{mirror_code, mirror_from_code, mirroring_from_code, save_mirroring, lemma_mirror_code_roundtrip};

verus! {

pub const PRG_BANK_SIZE: usize = 0x4000;
pub const PRG_RAM_8K: usize = 0x2000;
/// CPU cycles the timer counts before it raises the IRQ.
pub const IRQ_LIMIT: u32 = 0x2000_0000;

pub struct NesEventMapper {
    pub controllers: [Controller; 2],
    pub prg_rom: Vec<[u8; PRG_BANK_SIZE]>,
    pub chr_ram: Vec<u8>,
    pub wram: Vec<u8>,
    pub wram_enabled: bool,
    pub shift_register: u8,
    pub shift_count: u8,
    /// Control: mirroring and PRG mode.
    pub reg0: u8,
    /// CHR register 0, used for the I, O and AA bits.
    pub reg1: u8,
    /// PRG register: W (RAM disable) and the bank.
    pub reg3: u8,
    /// 0 until I is cleared, 1 until I is set again, then 2 (unlocked).
    pub init_state: u8,
    pub irq_counter: u32,
    pub irq_enabled: bool,
    pub irq_pending: bool,
    pub mirroring: NametableMirror,
    pub vram: Vec<u8>,
    pub cpu_ram: Vec<u8>,
    pub palette_ram: Vec<u8>,
}

/// The I bit: set, it holds the timer in reset.
pub open spec fn i_bit(reg1: u8) -> bool {
    reg1 & 0x10 != 0
}

/// The start-up lock after the registers changed.
pub open spec fn next_init(init: u8, i: bool) -> u8 {
    if init == 0 && !i {
        1
    } else if init == 1 && i {
        2
    } else {
        init
    }
}

/// The mirroring of the control register's low two bits.
pub open spec fn event_mirroring(reg0: u8) -> NametableMirror {
    let m = reg0 & 3;
    if m == 0 {
        NametableMirror::Lower
    } else if m == 1 {
        NametableMirror::Higher
    } else if m == 2 {
        NametableMirror::Vertical
    } else {
        NametableMirror::Horizontal
    }
}

impl NesEventMapper {
    pub open spec fn wf(&self) -> bool {
        &&& self.cpu_ram@.len() == CPU_RAM_SIZE
        &&& self.wram@.len() == PRG_RAM_8K
        &&& self.chr_ram@.len() == PRG_RAM_8K
        &&& self.vram@.len() == VRAM_SIZE
        &&& self.palette_ram@.len() == PALETTE_SIZE
        &&& self.shift_count < 5
    }

    /// What recomputing the derived state from the registers leaves in
    /// `self`, relative to `old`, the state before.
    pub open spec fn updated_from(&self, old: &NesEventMapper) -> bool {
        let i = i_bit(self.reg1);
        &&& self.init_state == next_init(old.init_state, i)
        &&& i ==> self.irq_counter == 0 && !self.irq_enabled && !self.irq_pending
        &&& !i ==> self.irq_enabled && self.irq_counter == old.irq_counter && self.irq_pending == old.irq_pending
        &&& self.mirroring == event_mirroring(self.reg0)
        &&& self.wram_enabled == (self.reg3 & 0x10 == 0)
    }

    /// Byte of 16KB bank `bank` at `off`, or 0 past the end of the ROM.
    pub open spec fn bank_byte(&self, bank: int, off: int) -> u8 {
        if 0 <= bank < self.prg_rom@.len() { self.prg_rom@[bank][off] } else { 0 }
    }

    pub open spec fn spec_prg_read(&self, addr: u16) -> u8 {
        let offset = addr as int - 0x8000;
        let last = if self.prg_rom@.len() == 0 { 0 } else { self.prg_rom@.len() - 1 };
        if self.init_state < 2 {
            if offset < 0x4000 { self.bank_byte(0, offset) } else { self.bank_byte(1, offset - 0x4000) }
        } else if self.reg1 & 0x08 == 0 {
            let base = (self.reg1 & 0x06) as int;
            if offset < 0x4000 { self.bank_byte(base, offset) } else { self.bank_byte(base + 1, offset - 0x4000) }
        } else {
            let prg_reg = ((self.reg3 & 0x07) | 0x08) as int;
            let even = prg_reg - prg_reg % 2;
            let mode = (self.reg0 / 4) % 4;
            if offset < 0x4000 {
                let bank = if mode <= 1 { even } else if mode == 2 { 8 } else { prg_reg };
                self.bank_byte(if bank < last { bank } else { last }, offset)
            } else {
                let bank = if mode <= 1 { even + 1 } else if mode == 2 { prg_reg } else { last };
                self.bank_byte(if bank < last { bank } else { last }, offset - 0x4000)
            }
        }
    }

    pub open spec fn spec_cpu_read(&self, addr: u16) -> u8 {
        if addr <= 0x1FFF {
            self.cpu_ram@[(addr as int) % 0x800]
        } else if 0x6000 <= addr <= 0x7FFF {
            if self.wram_enabled { self.wram@[addr - 0x6000] } else { 0 }
        } else if addr >= 0x8000 {
            self.spec_prg_read(addr)
        } else {
            0
        }
    }

    pub open spec fn spec_ppu_read(&self, addr: u16) -> u8 {
        if addr <= 0x1FFF {
            self.chr_ram@[addr as int]
        } else if addr <= 0x3EFF {
            self.vram@[nt_offset(addr, self.mirroring)]
        } else if addr <= 0x3FFF {
            self.palette_ram@[palette_slot(addr)]
        } else {
            0
        }
    }

    /// What `new` builds from its arguments.
    pub open spec fn built_by_new(flags: u8, prg_banks: Vec<[u8; PRG_BANK_SIZE]>, m: NesEventMapper) -> bool {
        &&& (m.wf())
        &&& (m.prg_rom@ == prg_banks@)
        &&& (m.wram_enabled)
        &&& (m.shift_register == 0x10 && m.shift_count == 0)
        &&& (m.reg0 == 0x0C && m.reg1 == 0x10 && m.reg3 == 0)
        &&& (m.init_state == 0)
        &&& (m.irq_counter == 0 && !m.irq_enabled && !m.irq_pending)
        &&& (m.mirroring == (if flags & 1 != 0 { NametableMirror::Vertical } else { NametableMirror::Horizontal }))
        &&& (m.chr_ram@ == Seq::new(PRG_RAM_8K as nat, |i: int| 0u8))
        &&& (m.wram@ == Seq::new(PRG_RAM_8K as nat, |i: int| 0u8))
        &&& (m.vram@ == Seq::new(VRAM_SIZE as nat, |i: int| 0u8))
        &&& (m.cpu_ram@ == Seq::new(CPU_RAM_SIZE as nat, |i: int| 0u8))
        &&& (m.palette_ram@ == Seq::new(PALETTE_SIZE as nat, |i: int| 0x0Fu8))
    }

    /// Power-on: the lock is engaged with I set, the control register in
    /// mode 3, and mirroring from flags 6 bit 0.
    pub fn new(flags: u8, prg_banks: Vec<[u8; PRG_BANK_SIZE]>) -> (m: NesEventMapper)
        ensures
            m.wf(),
            m.prg_rom@ == prg_banks@,
            m.wram_enabled,
            m.shift_register == 0x10 && m.shift_count == 0,
            m.reg0 == 0x0C && m.reg1 == 0x10 && m.reg3 == 0,
            m.init_state == 0,
            m.irq_counter == 0 && !m.irq_enabled && !m.irq_pending,
            m.mirroring == (if flags & 1 != 0 { NametableMirror::Vertical } else { NametableMirror::Horizontal }),
            m.chr_ram@ == Seq::new(PRG_RAM_8K as nat, |i: int| 0u8),
            m.wram@ == Seq::new(PRG_RAM_8K as nat, |i: int| 0u8),
            m.vram@ == Seq::new(VRAM_SIZE as nat, |i: int| 0u8),
            m.cpu_ram@ == Seq::new(CPU_RAM_SIZE as nat, |i: int| 0u8),
            m.palette_ram@ == Seq::new(PALETTE_SIZE as nat, |i: int| 0x0Fu8),
            Self::built_by_new(flags, prg_banks, m),
    {
        let mirroring = if flags & 1 != 0 { NametableMirror::Vertical } else { NametableMirror::Horizontal };
        NesEventMapper {
            controllers: new_controllers(),
            prg_rom: prg_banks,
            chr_ram: zeroed(PRG_RAM_8K),
            wram: zeroed(PRG_RAM_8K),
            wram_enabled: true,
            shift_register: 0x10,
            shift_count: 0,
            reg0: 0x0C,
            reg1: 0x10,
            reg3: 0,
            init_state: 0,
            irq_counter: 0,
            irq_enabled: false,
            irq_pending: false,
            mirroring,
            vram: zeroed(VRAM_SIZE),
            cpu_ram: zeroed(CPU_RAM_SIZE),
            palette_ram: filled(PALETTE_SIZE, 0x0F),
        }
    }

    fn update_state(&mut self)
        requires
            old(self).wf(),
        ensures
            final(self).wf(),
            final(self).updated_from(old(self)),
            final(self).reg0 == old(self).reg0,
            final(self).reg1 == old(self).reg1,
            final(self).reg3 == old(self).reg3,
            final(self).shift_register == old(self).shift_register,
            final(self).shift_count == old(self).shift_count,
            final(self).prg_rom == old(self).prg_rom,
            final(self).chr_ram == old(self).chr_ram,
            final(self).wram == old(self).wram,
            final(self).vram == old(self).vram,
            final(self).palette_ram == old(self).palette_ram,
            final(self).cpu_ram == old(self).cpu_ram,
            final(self).controllers == old(self).controllers,
    {
        let i = (self.reg1 & 0x10) != 0;
        if self.init_state == 0 {
            if !i {
                self.init_state = 1;
            }
        } else if self.init_state == 1 {
            if i {
                self.init_state = 2;
            }
        }
        if i {
            self.irq_counter = 0;
            self.irq_enabled = false;
            self.irq_pending = false;
        } else {
            self.irq_enabled = true;
        }
        let m = self.reg0 & 3;
        self.mirroring = if m == 0 {
            NametableMirror::Lower
        } else if m == 1 {
            NametableMirror::Higher
        } else if m == 2 {
            NametableMirror::Vertical
        } else {
            NametableMirror::Horizontal
        };
        self.wram_enabled = (self.reg3 & 0x10) == 0;
    }

    fn bank_byte_at(&self, bank: usize, off: usize) -> (r: u8)
        requires
            off < PRG_BANK_SIZE,
        ensures
            r == self.bank_byte(bank as int, off as int),
    {
        if bank < self.prg_rom.len() { self.prg_rom[bank][off] } else { 0 }
    }

    fn map_prg_read(&self, addr: u16) -> (r: u8)
        requires
            addr >= 0x8000,
        ensures
            r == self.spec_prg_read(addr),
    {
        let offset = (addr - 0x8000) as usize;
        let last = if self.prg_rom.len() == 0 { 0 } else { self.prg_rom.len() - 1 };
        if self.init_state < 2 {
            return if offset < PRG_BANK_SIZE {
                self.bank_byte_at(0, offset)
            } else {
                self.bank_byte_at(1, offset - PRG_BANK_SIZE)
            };
        }
        if self.reg1 & 0x08 == 0 {
            let base = (self.reg1 & 0x06) as usize;
            return if offset < PRG_BANK_SIZE {
                self.bank_byte_at(base, offset)
            } else {
                self.bank_byte_at(base + 1, offset - PRG_BANK_SIZE)
            };
        }
        let r3 = self.reg3;
        assert(((r3 & 0x07) | 0x08) < 16) by (bit_vector);
        let prg_reg = ((r3 & 0x07) | 0x08) as usize;
        let even = prg_reg - prg_reg % 2;
        let mode = (self.reg0 / 4) % 4;
        if offset < PRG_BANK_SIZE {
            let bank: usize = if mode <= 1 { even } else if mode == 2 { 8 } else { prg_reg };
            self.bank_byte_at(if bank < last { bank } else { last }, offset)
        } else {
            let bank: usize = if mode <= 1 { even + 1 } else if mode == 2 { prg_reg } else { last };
            self.bank_byte_at(if bank < last { bank } else { last }, offset - PRG_BANK_SIZE)
        }
    }

    /// The board after a serial write of `value` to $8000-$FFFF at `addr`,
    /// compared with the board `o` before it.
    pub open spec fn register_written(&self, o: &Self, addr: u16, value: u8) -> bool {
        &&& self.wf()
        &&& value & 0x80 != 0 ==> self.shift_register == 0x10 && self.shift_count == 0
                && self.reg0 == o.reg0 | 0x0C && self.reg1 == o.reg1
                && self.reg3 == o.reg3 && self.updated_from(o)
        &&& value & 0x80 == 0 ==> ({
                let sr = (o.shift_register >> 1u8) | ((value & 1) << 4u8);
                let reg = (addr / 0x2000) % 4;
                if o.shift_count + 1 == 5 {
                    &&& self.shift_register == 0x10 && self.shift_count == 0
                    &&& self.reg0 == (if reg == 0 { sr } else { o.reg0 })
                    &&& self.reg1 == (if reg == 1 { sr } else { o.reg1 })
                    &&& self.reg3 == (if reg == 3 { sr } else { o.reg3 })
                    &&& self.updated_from(o)
                } else {
                    &&& self.shift_register == sr && self.shift_count == o.shift_count + 1
                    &&& self.reg0 == o.reg0 && self.reg1 == o.reg1
                    &&& self.reg3 == o.reg3 && self.init_state == o.init_state
                    &&& self.irq_counter == o.irq_counter
                    &&& self.irq_enabled == o.irq_enabled
                    &&& self.irq_pending == o.irq_pending
                    &&& self.mirroring == o.mirroring
                    &&& self.wram_enabled == o.wram_enabled
                }
            })
        &&& self.prg_rom == o.prg_rom
        &&& self.chr_ram == o.chr_ram
        &&& self.wram == o.wram
        &&& self.vram == o.vram
        &&& self.palette_ram == o.palette_ram
        &&& self.cpu_ram == o.cpu_ram
        &&& self.controllers == o.controllers
    }

    /// The MMC1 serial port: bit 7 resets it (and forces mode 3); otherwise
    /// bit 0 is shifted in, and the fifth bit writes the register picked by
    /// address bits 13-14. Every completed write, and the reset, recompute
    /// the lock, the timer's enable, the mirroring and the RAM enable.
    fn write_register(&mut self, addr: u16, value: u8)
        requires
            old(self).wf(),
        ensures
            final(self).register_written(&*old(self), addr, value),
    {
        if value & 0x80 != 0 {
            self.shift_register = 0x10;
            self.shift_count = 0;
            self.reg0 = self.reg0 | 0x0C;
            self.update_state();
            return;
        }
        self.shift_register = (self.shift_register >> 1) | ((value & 1) << 4);
        self.shift_count = self.shift_count + 1;
        if self.shift_count == 5 {
            let data = self.shift_register;
            let reg = (addr / 0x2000) % 4;
            if reg == 0 {
                self.reg0 = data;
            } else if reg == 1 {
                self.reg1 = data;
            } else if reg == 3 {
                self.reg3 = data;
            }
            self.shift_register = 0x10;
            self.shift_count = 0;
            self.update_state();
        }
    }

    pub fn cpu_read(&self, addr: u16) -> (r: u8)
        requires
            self.wf(),
        ensures
            r == self.spec_cpu_read(addr),
    {
        if addr <= 0x1FFF {
            self.cpu_ram[(addr % 0x800) as usize]
        } else if 0x6000 <= addr && addr <= 0x7FFF {
            if self.wram_enabled { self.wram[(addr - 0x6000) as usize] } else { 0 }
        } else if addr >= 0x8000 {
            self.map_prg_read(addr)
        } else {
            0
        }
    }

    /// RAM, work RAM while enabled, and the serial port at $8000-$FFFF.
    pub fn cpu_write(&mut self, addr: u16, value: u8)
        requires
            old(self).wf(),
        ensures
            final(self).wf(),
            addr <= 0x1FFF ==> final(self).cpu_ram@ == old(self).cpu_ram@.update((addr as int) % 0x800, value),
            addr > 0x1FFF ==> final(self).cpu_ram == old(self).cpu_ram,
            0x6000 <= addr <= 0x7FFF && old(self).wram_enabled ==> final(self).wram@ == old(self).wram@.update(addr - 0x6000, value),
            !(0x6000 <= addr <= 0x7FFF && old(self).wram_enabled) ==> final(self).wram == old(self).wram,
            addr < 0x8000 ==> final(self).reg0 == old(self).reg0 && final(self).reg1 == old(self).reg1
                && final(self).reg3 == old(self).reg3 && final(self).shift_register == old(self).shift_register
                && final(self).shift_count == old(self).shift_count && final(self).init_state == old(self).init_state
                && final(self).irq_counter == old(self).irq_counter && final(self).irq_enabled == old(self).irq_enabled
                && final(self).irq_pending == old(self).irq_pending && final(self).mirroring == old(self).mirroring
                && final(self).wram_enabled == old(self).wram_enabled,
            addr >= 0x8000 ==> final(self).register_written(&*old(self), addr, value),
            final(self).prg_rom == old(self).prg_rom,
            final(self).chr_ram == old(self).chr_ram,
            final(self).vram == old(self).vram,
            final(self).palette_ram == old(self).palette_ram,
    {
        if addr <= 0x1FFF {
            self.cpu_ram.set((addr % 0x800) as usize, value);
        } else if 0x6000 <= addr && addr <= 0x7FFF {
            if self.wram_enabled {
                self.wram.set((addr - 0x6000) as usize, value);
            }
        } else if addr >= 0x8000 {
            self.write_register(addr, value);
        }
    }

    pub fn ppu_read(&self, addr: u16) -> (r: u8)
        requires
            self.wf(),
        ensures
            r == self.spec_ppu_read(addr),
    {
        if addr <= 0x1FFF {
            self.chr_ram[addr as usize]
        } else if addr <= 0x3EFF {
            self.vram[mirror_nametable_addr(addr, self.mirroring) as usize]
        } else if addr <= 0x3FFF {
            self.palette_ram[palette_index(addr)]
        } else {
            0
        }
    }

    /// CHR RAM, nametables and palette.
    pub fn ppu_write(&mut self, addr: u16, value: u8)
        requires
            old(self).wf(),
        ensures
            final(self).wf(),
            addr <= 0x1FFF ==> final(self).chr_ram@ == old(self).chr_ram@.update(addr as int, value),
            addr > 0x1FFF ==> final(self).chr_ram == old(self).chr_ram,
            0x2000 <= addr <= 0x3EFF ==> final(self).vram@ == old(self).vram@.update(nt_offset(addr, old(self).mirroring), value),
            !(0x2000 <= addr <= 0x3EFF) ==> final(self).vram == old(self).vram,
            0x3F00 <= addr <= 0x3FFF ==> final(self).palette_ram@ == old(self).palette_ram@.update(palette_slot(addr), value),
            !(0x3F00 <= addr <= 0x3FFF) ==> final(self).palette_ram == old(self).palette_ram,
            final(self).cpu_ram == old(self).cpu_ram,
            final(self).wram == old(self).wram,
            final(self).mirroring == old(self).mirroring,
            final(self).reg0 == old(self).reg0,
            final(self).reg1 == old(self).reg1,
            final(self).reg3 == old(self).reg3,
            final(self).init_state == old(self).init_state,
    {
        if addr <= 0x1FFF {
            self.chr_ram.set(addr as usize, value);
        } else if addr <= 0x3EFF {
            let i = mirror_nametable_addr(addr, self.mirroring) as usize;
            self.vram.set(i, value);
        } else if addr <= 0x3FFF {
            let i = palette_index(addr);
            self.palette_ram.set(i, value);
        }
    }

    /// While enabled, the timer counts CPU cycles and raises the IRQ (and
    /// stops) when it reaches `IRQ_LIMIT`.
    pub fn cpu_cycle(&mut self, ppu_dot: u64)
        requires
            old(self).wf(),
            old(self).irq_enabled ==> old(self).irq_counter < u32::MAX,
        ensures
            final(self).wf(),
            !old(self).irq_enabled ==> *final(self) == *old(self),
            old(self).irq_enabled ==> ({
                let c = old(self).irq_counter + 1;
                &&& final(self).irq_counter == c
                &&& final(self).irq_enabled == (c < IRQ_LIMIT)
                &&& final(self).irq_pending == (old(self).irq_pending || c >= IRQ_LIMIT)
            }),
            final(self).reg0 == old(self).reg0,
            final(self).reg1 == old(self).reg1,
            final(self).reg3 == old(self).reg3,
            final(self).init_state == old(self).init_state,
            final(self).mirroring == old(self).mirroring,
            final(self).wram_enabled == old(self).wram_enabled,
            final(self).cpu_ram == old(self).cpu_ram,
            final(self).wram == old(self).wram,
            final(self).chr_ram == old(self).chr_ram,
            final(self).vram == old(self).vram,
            final(self).palette_ram == old(self).palette_ram,
            final(self).prg_rom == old(self).prg_rom,
    {
        if self.irq_enabled {
            self.irq_counter = self.irq_counter + 1;
            if self.irq_counter >= IRQ_LIMIT {
                self.irq_pending = true;
                self.irq_enabled = false;
            }
        }
    }

    pub fn code_start(&self) -> (r: u16)
        requires
            self.wf(),
        ensures
            r == word(self.spec_cpu_read(RESET_TARGET_ADDR), self.spec_cpu_read(0xFFFD)),
    {
        make_word(self.cpu_read(RESET_TARGET_ADDR), self.cpu_read(RESET_TARGET_ADDR + 1))
    }

    pub fn poll_irq(&self) -> (r: bool)
        ensures
            r == self.irq_pending,
    {
        self.irq_pending
    }

    pub fn mapper_id(&self) -> (r: u8)
        ensures
            r == 105,
    {
        105
    }
}

impl NesEventMapper {
    /// The bytes `save_state` appends.
    pub open spec fn state_bytes(&self) -> Seq<u8> {
        self.cpu_ram@
            + self.wram@
            + self.chr_ram@
            + self.vram@
            + self.palette_ram@
            + enc_u8(self.shift_register)
            + enc_u8(self.shift_count)
            + enc_u8(self.reg0)
            + enc_u8(self.reg1)
            + enc_u8(self.reg3)
            + enc_u8(self.init_state)
            + enc_u32(self.irq_counter)
            + enc_bool(self.irq_enabled)
            + enc_bool(self.irq_pending)
            + enc_bool(self.wram_enabled)
            + enc_u8(mirror_code(self.mirroring))
            + controllers_bytes(self.controllers)
    }

    /// Length of the saved state.
    pub open spec fn state_len(&self) -> nat {
        (CPU_RAM_SIZE + PRG_RAM_8K + PRG_RAM_8K + VRAM_SIZE + PALETTE_SIZE + 2 * CONTROLLER_STATE_LEN + 14) as nat
    }

    /// Every register that the state stores in fewer bits than it is held in
    /// fits in those bits.
    pub open spec fn fits(&self) -> bool {
        true
    }

    /// The stored bytes at `p` hold a state that this cartridge can take.
    pub open spec fn state_valid(&self, d: Seq<u8>, p: int) -> bool {
        &&& (d[(p + CPU_RAM_SIZE + PRG_RAM_8K + PRG_RAM_8K + VRAM_SIZE + PALETTE_SIZE + 1)]) < 5
        &&& mirror_from_code(d[(p + CPU_RAM_SIZE + PRG_RAM_8K + PRG_RAM_8K + VRAM_SIZE + PALETTE_SIZE + 13)]) is Some
    }

    /// What `load_state` answers for the bytes at `p`.
    pub open spec fn load_outcome(&self, d: Seq<u8>, p: int) -> Result<(), StateError> {
        if p + self.state_len() > d.len() {
            Err(StateError::UnexpectedEof)
        } else if !self.state_valid(d, p) {
            Err(StateError::InvalidValue)
        } else {
            Ok(())
        }
    }

    /// Every saved field holds what the bytes at `p` store.
    pub open spec fn loaded_from(&self, d: Seq<u8>, p: int) -> bool {
        &&& self.cpu_ram@ == d.subrange(p, p + CPU_RAM_SIZE)
        &&& self.wram@ == d.subrange((p + CPU_RAM_SIZE), (p + CPU_RAM_SIZE) + PRG_RAM_8K)
        &&& self.chr_ram@ == d.subrange((p + CPU_RAM_SIZE + PRG_RAM_8K), (p + CPU_RAM_SIZE + PRG_RAM_8K) + PRG_RAM_8K)
        &&& self.vram@ == d.subrange((p + CPU_RAM_SIZE + PRG_RAM_8K + PRG_RAM_8K), (p + CPU_RAM_SIZE + PRG_RAM_8K + PRG_RAM_8K) + VRAM_SIZE)
        &&& self.palette_ram@ == d.subrange((p + CPU_RAM_SIZE + PRG_RAM_8K + PRG_RAM_8K + VRAM_SIZE), (p + CPU_RAM_SIZE + PRG_RAM_8K + PRG_RAM_8K + VRAM_SIZE) + PALETTE_SIZE)
        &&& self.shift_register == d[(p + CPU_RAM_SIZE + PRG_RAM_8K + PRG_RAM_8K + VRAM_SIZE + PALETTE_SIZE)]
        &&& self.shift_count == d[(p + CPU_RAM_SIZE + PRG_RAM_8K + PRG_RAM_8K + VRAM_SIZE + PALETTE_SIZE + 1)]
        &&& self.reg0 == d[(p + CPU_RAM_SIZE + PRG_RAM_8K + PRG_RAM_8K + VRAM_SIZE + PALETTE_SIZE + 2)]
        &&& self.reg1 == d[(p + CPU_RAM_SIZE + PRG_RAM_8K + PRG_RAM_8K + VRAM_SIZE + PALETTE_SIZE + 3)]
        &&& self.reg3 == d[(p + CPU_RAM_SIZE + PRG_RAM_8K + PRG_RAM_8K + VRAM_SIZE + PALETTE_SIZE + 4)]
        &&& self.init_state == d[(p + CPU_RAM_SIZE + PRG_RAM_8K + PRG_RAM_8K + VRAM_SIZE + PALETTE_SIZE + 5)]
        &&& self.irq_counter == dec_u32_at(d, (p + CPU_RAM_SIZE + PRG_RAM_8K + PRG_RAM_8K + VRAM_SIZE + PALETTE_SIZE + 6))
        &&& self.irq_enabled == (d[(p + CPU_RAM_SIZE + PRG_RAM_8K + PRG_RAM_8K + VRAM_SIZE + PALETTE_SIZE + 10)] != 0)
        &&& self.irq_pending == (d[(p + CPU_RAM_SIZE + PRG_RAM_8K + PRG_RAM_8K + VRAM_SIZE + PALETTE_SIZE + 11)] != 0)
        &&& self.wram_enabled == (d[(p + CPU_RAM_SIZE + PRG_RAM_8K + PRG_RAM_8K + VRAM_SIZE + PALETTE_SIZE + 12)] != 0)
        &&& self.mirroring == mirror_from_code(d[(p + CPU_RAM_SIZE + PRG_RAM_8K + PRG_RAM_8K + VRAM_SIZE + PALETTE_SIZE + 13)])->0
        &&& self.controllers@[0] == controller_at(d, (p + CPU_RAM_SIZE + PRG_RAM_8K + PRG_RAM_8K + VRAM_SIZE + PALETTE_SIZE + 14))
        &&& self.controllers@[1] == controller_at(d, (p + CPU_RAM_SIZE + PRG_RAM_8K + PRG_RAM_8K + VRAM_SIZE + PALETTE_SIZE + 14) + CONTROLLER_STATE_LEN)
    }

    /// The two agree on every saved field.
    pub open spec fn same_state(&self, other: &Self) -> bool {
        &&& self.cpu_ram@ == other.cpu_ram@
        &&& self.wram@ == other.wram@
        &&& self.chr_ram@ == other.chr_ram@
        &&& self.vram@ == other.vram@
        &&& self.palette_ram@ == other.palette_ram@
        &&& self.shift_register == other.shift_register
        &&& self.shift_count == other.shift_count
        &&& self.reg0 == other.reg0
        &&& self.reg1 == other.reg1
        &&& self.reg3 == other.reg3
        &&& self.init_state == other.init_state
        &&& self.irq_counter == other.irq_counter
        &&& self.irq_enabled == other.irq_enabled
        &&& self.irq_pending == other.irq_pending
        &&& self.wram_enabled == other.wram_enabled
        &&& self.mirroring == other.mirroring
        &&& self.controllers@ == other.controllers@
    }

    /// The two agree on every field that the state does not store.
    pub open spec fn keeps_unsaved(&self, other: &Self) -> bool {
        &&& self.prg_rom == other.prg_rom
    }

    /// The two come from cartridges of the same shape.
    pub open spec fn same_layout(&self, other: &Self) -> bool {
        true
    }

    #[verifier::spinoff_prover]
    pub fn save_state(&self, w: &mut SavestateWriter)
        ensures
            final(w).buf@ == old(w).buf@ + self.state_bytes(),
    {
        let ghost b = w.buf@;
        let ghost s0 = self.cpu_ram@;
        let ghost s1 = s0 + self.wram@;
        let ghost s2 = s1 + self.chr_ram@;
        let ghost s3 = s2 + self.vram@;
        let ghost s4 = s3 + self.palette_ram@;
        let ghost s5 = s4 + enc_u8(self.shift_register);
        let ghost s6 = s5 + enc_u8(self.shift_count);
        let ghost s7 = s6 + enc_u8(self.reg0);
        let ghost s8 = s7 + enc_u8(self.reg1);
        let ghost s9 = s8 + enc_u8(self.reg3);
        let ghost s10 = s9 + enc_u8(self.init_state);
        let ghost s11 = s10 + enc_u32(self.irq_counter);
        let ghost s12 = s11 + enc_bool(self.irq_enabled);
        let ghost s13 = s12 + enc_bool(self.irq_pending);
        let ghost s14 = s13 + enc_bool(self.wram_enabled);
        let ghost s15 = s14 + enc_u8(mirror_code(self.mirroring));
        let ghost s16 = s15 + controllers_bytes(self.controllers);
        w.write_bytes(self.cpu_ram.as_slice());
        w.write_bytes(self.wram.as_slice());
        proof {
            lemma_add_assoc(b, s0, self.wram@);
        }
        w.write_bytes(self.chr_ram.as_slice());
        proof {
            lemma_add_assoc(b, s1, self.chr_ram@);
        }
        w.write_bytes(self.vram.as_slice());
        proof {
            lemma_add_assoc(b, s2, self.vram@);
        }
        w.write_bytes(self.palette_ram.as_slice());
        proof {
            lemma_add_assoc(b, s3, self.palette_ram@);
        }
        w.write_u8(self.shift_register);
        proof {
            lemma_add_assoc(b, s4, enc_u8(self.shift_register));
        }
        w.write_u8(self.shift_count);
        proof {
            lemma_add_assoc(b, s5, enc_u8(self.shift_count));
        }
        w.write_u8(self.reg0);
        proof {
            lemma_add_assoc(b, s6, enc_u8(self.reg0));
        }
        w.write_u8(self.reg1);
        proof {
            lemma_add_assoc(b, s7, enc_u8(self.reg1));
        }
        w.write_u8(self.reg3);
        proof {
            lemma_add_assoc(b, s8, enc_u8(self.reg3));
        }
        w.write_u8(self.init_state);
        proof {
            lemma_add_assoc(b, s9, enc_u8(self.init_state));
        }
        w.write_u32(self.irq_counter);
        proof {
            lemma_add_assoc(b, s10, enc_u32(self.irq_counter));
        }
        w.write_bool(self.irq_enabled);
        proof {
            lemma_add_assoc(b, s11, enc_bool(self.irq_enabled));
        }
        w.write_bool(self.irq_pending);
        proof {
            lemma_add_assoc(b, s12, enc_bool(self.irq_pending));
        }
        w.write_bool(self.wram_enabled);
        proof {
            lemma_add_assoc(b, s13, enc_bool(self.wram_enabled));
        }
        save_mirroring(w, self.mirroring);
        proof {
            lemma_add_assoc(b, s14, enc_u8(mirror_code(self.mirroring)));
        }
        save_controllers(w, &self.controllers);
        proof {
            lemma_add_assoc(b, s15, controllers_bytes(self.controllers));
        }
    }

    /// Restores a state written by `save_state`. Nothing changes unless the
    /// whole state is there and holds values this cartridge can take.
    #[verifier::spinoff_prover]
    pub fn load_state(&mut self, r: &mut SavestateReader) -> (res: Result<(), StateError>)
        requires
            old(self).wf(),
            old(r).wf(),
        ensures
            final(r).wf(),
            final(r).data@ == old(r).data@,
            res == old(self).load_outcome(old(r).data@, old(r).pos as int),
            res is Err ==> *final(self) == *old(self) && final(r).pos == old(r).pos,
            res is Ok ==> final(self).wf() && final(self).loaded_from(old(r).data@, old(r).pos as int)
                && final(self).keeps_unsaved(&*old(self)) && final(self).same_layout(&*old(self))
                && final(r).pos == old(r).pos + old(self).state_len(),
    {
        let ghost d = r.data@;
        let ghost p = r.pos as int;
        let start = r.pos;
        if r.remaining_len() < CPU_RAM_SIZE + PRG_RAM_8K + PRG_RAM_8K + VRAM_SIZE + PALETTE_SIZE + 2 * CONTROLLER_STATE_LEN + 14 {
            return Err(StateError::UnexpectedEof);
        }
        let cpu_ram = r.take_bytes(CPU_RAM_SIZE);
        let wram = r.take_bytes(PRG_RAM_8K);
        let chr_ram = r.take_bytes(PRG_RAM_8K);
        let vram = r.take_bytes(VRAM_SIZE);
        let palette_ram = r.take_bytes(PALETTE_SIZE);
        let shift_register = r.take_u8();
        let shift_count = r.take_u8();
        let reg0 = r.take_u8();
        let reg1 = r.take_u8();
        let reg3 = r.take_u8();
        let init_state = r.take_u8();
        let irq_counter = r.take_u32();
        let irq_enabled = r.take_bool();
        let irq_pending = r.take_bool();
        let wram_enabled = r.take_bool();
        let mirroring_code = r.take_u8();
        let controllers = take_controllers(r);
        let mirroring = match mirroring_from_code(mirroring_code) {
            Some(m) => m,
            None => {
                r.rewind(start);
                return Err(StateError::InvalidValue);
            },
        };
        if (shift_count >= 5) {
            r.rewind(start);
            return Err(StateError::InvalidValue);
        }
        self.cpu_ram = cpu_ram;
        self.wram = wram;
        self.chr_ram = chr_ram;
        self.vram = vram;
        self.palette_ram = palette_ram;
        self.shift_register = shift_register;
        self.shift_count = shift_count;
        self.reg0 = reg0;
        self.reg1 = reg1;
        self.reg3 = reg3;
        self.init_state = init_state;
        self.irq_counter = irq_counter;
        self.irq_enabled = irq_enabled;
        self.irq_pending = irq_pending;
        self.wram_enabled = wram_enabled;
        self.mirroring = mirroring;
        self.controllers = controllers;
        Ok(())
    }

    /// Saving a state and loading it into a cartridge of the same shape
    /// succeeds and restores every saved field.
    #[verifier::spinoff_prover]
    pub proof fn lemma_state_roundtrip(o: Self, m: Self, n: Self, d: Seq<u8>, p: int)
        requires
            o.wf(),
            m.wf(),
            m.fits(),
            o.same_layout(&m),
            n.same_layout(&m),
            stored_at(d, p, m.state_bytes()),
        ensures
            o.load_outcome(d, p) == Ok::<(), StateError>(()),
            n.loaded_from(d, p) ==> n.same_state(&m),
    {
        let s0 = m.cpu_ram@;
        let s1 = s0 + m.wram@;
        let s2 = s1 + m.chr_ram@;
        let s3 = s2 + m.vram@;
        let s4 = s3 + m.palette_ram@;
        let s5 = s4 + enc_u8(m.shift_register);
        let s6 = s5 + enc_u8(m.shift_count);
        let s7 = s6 + enc_u8(m.reg0);
        let s8 = s7 + enc_u8(m.reg1);
        let s9 = s8 + enc_u8(m.reg3);
        let s10 = s9 + enc_u8(m.init_state);
        let s11 = s10 + enc_u32(m.irq_counter);
        let s12 = s11 + enc_bool(m.irq_enabled);
        let s13 = s12 + enc_bool(m.irq_pending);
        let s14 = s13 + enc_bool(m.wram_enabled);
        let s15 = s14 + enc_u8(mirror_code(m.mirroring));
        let s16 = s15 + controllers_bytes(m.controllers);
        lemma_stored_split(d, p, s15, controllers_bytes(m.controllers));
        lemma_stored_split(d, p, s14, enc_u8(mirror_code(m.mirroring)));
        lemma_stored_split(d, p, s13, enc_bool(m.wram_enabled));
        lemma_stored_split(d, p, s12, enc_bool(m.irq_pending));
        lemma_stored_split(d, p, s11, enc_bool(m.irq_enabled));
        lemma_stored_split(d, p, s10, enc_u32(m.irq_counter));
        lemma_stored_split(d, p, s9, enc_u8(m.init_state));
        lemma_stored_split(d, p, s8, enc_u8(m.reg3));
        lemma_stored_split(d, p, s7, enc_u8(m.reg1));
        lemma_stored_split(d, p, s6, enc_u8(m.reg0));
        lemma_stored_split(d, p, s5, enc_u8(m.shift_count));
        lemma_stored_split(d, p, s4, enc_u8(m.shift_register));
        lemma_stored_split(d, p, s3, m.palette_ram@);
        lemma_stored_split(d, p, s2, m.vram@);
        lemma_stored_split(d, p, s1, m.chr_ram@);
        lemma_stored_split(d, p, s0, m.wram@);
        lemma_stored_u8(d, (p + CPU_RAM_SIZE + PRG_RAM_8K + PRG_RAM_8K + VRAM_SIZE + PALETTE_SIZE), m.shift_register);
        lemma_stored_u8(d, (p + CPU_RAM_SIZE + PRG_RAM_8K + PRG_RAM_8K + VRAM_SIZE + PALETTE_SIZE + 1), m.shift_count);
        lemma_stored_u8(d, (p + CPU_RAM_SIZE + PRG_RAM_8K + PRG_RAM_8K + VRAM_SIZE + PALETTE_SIZE + 2), m.reg0);
        lemma_stored_u8(d, (p + CPU_RAM_SIZE + PRG_RAM_8K + PRG_RAM_8K + VRAM_SIZE + PALETTE_SIZE + 3), m.reg1);
        lemma_stored_u8(d, (p + CPU_RAM_SIZE + PRG_RAM_8K + PRG_RAM_8K + VRAM_SIZE + PALETTE_SIZE + 4), m.reg3);
        lemma_stored_u8(d, (p + CPU_RAM_SIZE + PRG_RAM_8K + PRG_RAM_8K + VRAM_SIZE + PALETTE_SIZE + 5), m.init_state);
        lemma_stored_u32(d, (p + CPU_RAM_SIZE + PRG_RAM_8K + PRG_RAM_8K + VRAM_SIZE + PALETTE_SIZE + 6), m.irq_counter);
        lemma_stored_bool(d, (p + CPU_RAM_SIZE + PRG_RAM_8K + PRG_RAM_8K + VRAM_SIZE + PALETTE_SIZE + 10), m.irq_enabled);
        lemma_stored_bool(d, (p + CPU_RAM_SIZE + PRG_RAM_8K + PRG_RAM_8K + VRAM_SIZE + PALETTE_SIZE + 11), m.irq_pending);
        lemma_stored_bool(d, (p + CPU_RAM_SIZE + PRG_RAM_8K + PRG_RAM_8K + VRAM_SIZE + PALETTE_SIZE + 12), m.wram_enabled);
        lemma_stored_u8(d, (p + CPU_RAM_SIZE + PRG_RAM_8K + PRG_RAM_8K + VRAM_SIZE + PALETTE_SIZE + 13), mirror_code(m.mirroring));
        lemma_mirror_code_roundtrip(m.mirroring);
        lemma_stored_controllers(d, (p + CPU_RAM_SIZE + PRG_RAM_8K + PRG_RAM_8K + VRAM_SIZE + PALETTE_SIZE + 14), m.controllers);
        if n.loaded_from(d, p) {
            assert(n.controllers@ =~= m.controllers@);
        }
    }
}

} // verus!
