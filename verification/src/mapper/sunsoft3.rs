//! Sunsoft-3 (mapper 67): a switchable 16KB PRG bank before a fixed last one,
//! four 2KB CHR banks, and a 16-bit CPU-cycle IRQ counter loaded high byte
//! first through one register.

use vstd::prelude::*;
use crate::bus::{NametableMirror, CPU_RAM_SIZE, VRAM_SIZE, PALETTE_SIZE, RESET_TARGET_ADDR, spec_mirroring_from_flags, mirroring_from_flags, nt_offset, mirror_nametable_addr, palette_slot, palette_index, word, make_word};
use crate::ppu_bus::{zeroed, filled};
use crate::controller::Controller;
use crate::mapper::common::new_controllers;

use crate::savestate::{SavestateWriter, SavestateReader, StateError, enc_u8, enc_bool, enc_u16, dec_u16_at, stored_at, lemma_add_assoc, lemma_stored_split, lemma_stored_u8, lemma_stored_bool, lemma_stored_u16, copy_into_array};
use crate::controller::{controllers_bytes, controller_at, save_controllers, take_controllers, lemma_stored_controllers, CONTROLLER_STATE_LEN};
use crate::ppu_bus::{mirror_code, mirror_from_code, mirroring_from_code, save_mirroring, lemma_mirror_code_roundtrip};

verus! {

pub const PRG_BANK_SIZE: usize = 0x4000;
pub const CHR_BANK_SIZE: usize = 0x0800;

pub struct Sunsoft3Mapper {
    pub controllers: [Controller; 2],
    pub prg_rom: Vec<[u8; PRG_BANK_SIZE]>,
    pub chr_8k: Vec<[u8; 8192]>,
    pub prg_reg: u8,
    pub chr_regs: [u8; 4],
    pub mirroring: NametableMirror,
    pub irq_enabled: bool,
    /// Which byte of the counter the next $C800 write loads: false for
    /// the high byte.
    pub irq_latch: bool,
    pub irq_counter: u16,
    pub irq_pending: bool,
    pub vram: Vec<u8>,
    pub cpu_ram: Vec<u8>,
    pub palette_ram: Vec<u8>,
}

/// The mirroring of the low two bits of a $E800 write.
pub open spec fn s3_mirroring(value: u8) -> NametableMirror {
    let m = value & 3;
    if m == 0 {
        NametableMirror::Vertical
    } else if m == 1 {
        NametableMirror::Horizontal
    } else if m == 2 {
        NametableMirror::Lower
    } else {
        NametableMirror::Higher
    }
}

impl Sunsoft3Mapper {
    pub open spec fn wf(&self) -> bool {
        &&& self.cpu_ram@.len() == CPU_RAM_SIZE
        &&& self.vram@.len() == VRAM_SIZE
        &&& self.palette_ram@.len() == PALETTE_SIZE
        &&& 4 * self.chr_8k@.len() <= usize::MAX
    }

    pub open spec fn spec_cpu_read(&self, addr: u16) -> u8 {
        let len: int = if self.prg_rom@.len() == 0 { 1 } else { self.prg_rom@.len() as int };
        if addr <= 0x1FFF {
            self.cpu_ram@[(addr as int) % 0x800]
        } else if addr >= 0x8000 {
            let bank = if addr < 0xC000 { self.prg_reg as int % len } else { len - 1 };
            if bank < self.prg_rom@.len() { self.prg_rom@[bank][(addr as int) % 0x4000] } else { 0 }
        } else {
            0
        }
    }

    pub open spec fn spec_chr_index(&self, addr: u16) -> int {
        let n: int = if self.chr_8k@.len() == 0 { 1 } else { 4 * self.chr_8k@.len() as int };
        self.chr_regs@[((addr as int) / 0x800) % 4] as int % n
    }

    pub open spec fn spec_ppu_read(&self, addr: u16) -> u8 {
        if addr <= 0x1FFF {
            let idx = self.spec_chr_index(addr);
            if self.chr_8k@.len() == 0 { 0 } else { self.chr_8k@[idx / 4][(idx % 4) * 2048 + (addr as int) % 2048] }
        } else if addr <= 0x3EFF {
            self.vram@[nt_offset(addr, self.mirroring)]
        } else if addr <= 0x3FFF {
            self.palette_ram@[palette_slot(addr)]
        } else {
            0
        }
    }

    pub fn new(flags: u8, prg_banks_16k: Vec<[u8; 16384]>, chr_banks_8k: Vec<[u8; 8192]>) -> (m: Sunsoft3Mapper)
        requires
            4 * chr_banks_8k@.len() <= usize::MAX,
        ensures
            m.wf(),
            m.prg_rom@ == prg_banks_16k@,
            m.chr_8k@ == chr_banks_8k@,
            m.prg_reg == 0,
            m.chr_regs@ == seq![0u8, 1, 2, 3],
            m.mirroring == spec_mirroring_from_flags(flags),
            !m.irq_enabled && !m.irq_latch && m.irq_counter == 0 && !m.irq_pending,
            m.vram@ == Seq::new(VRAM_SIZE as nat, |i: int| 0u8),
            m.cpu_ram@ == Seq::new(CPU_RAM_SIZE as nat, |i: int| 0u8),
            m.palette_ram@ == Seq::new(PALETTE_SIZE as nat, |i: int| 0x0Fu8),
    {
        let m = Sunsoft3Mapper {
            controllers: new_controllers(),
            prg_rom: prg_banks_16k,
            chr_8k: chr_banks_8k,
            prg_reg: 0,
            chr_regs: [0, 1, 2, 3],
            mirroring: mirroring_from_flags(flags),
            irq_enabled: false,
            irq_latch: false,
            irq_counter: 0,
            irq_pending: false,
            vram: zeroed(VRAM_SIZE),
            cpu_ram: zeroed(CPU_RAM_SIZE),
            palette_ram: filled(PALETTE_SIZE, 0x0F),
        };
        assert(m.chr_regs@ == seq![0u8, 1, 2, 3]);
        m
    }

    fn chr_2k_index(&self, addr: u16) -> (r: usize)
        requires
            self.wf(),
        ensures
            r as int == self.spec_chr_index(addr),
            self.chr_8k@.len() > 0 ==> r < 4 * self.chr_8k@.len(),
    {
        let n = if self.chr_8k.len() == 0 { 1 } else { 4 * self.chr_8k.len() };
        self.chr_regs[((addr / 0x800) % 4) as usize] as usize % n
    }

    pub fn cpu_peek(&self, addr: u16) -> (r: u8)
        requires
            self.wf(),
        ensures
            r == self.spec_cpu_read(addr),
    {
        if addr <= 0x1FFF {
            return self.cpu_ram[(addr % 0x800) as usize];
        }
        if addr < 0x8000 {
            return 0;
        }
        let len = if self.prg_rom.len() == 0 { 1 } else { self.prg_rom.len() };
        let bank = if addr < 0xC000 { self.prg_reg as usize % len } else { len - 1 };
        if bank < self.prg_rom.len() {
            self.prg_rom[bank][(addr % 0x4000) as usize]
        } else {
            0
        }
    }

    pub fn cpu_read(&self, addr: u16) -> (r: u8)
        requires
            self.wf(),
        ensures
            r == self.spec_cpu_read(addr),
    {
        self.cpu_peek(addr)
    }

    /// Registers at $8800-$F800 in 4KB steps (decoded on A11-A15): four CHR
    /// banks, the IRQ counter (high byte, then low byte), IRQ enable and
    /// acknowledge, mirroring, PRG bank.
    pub fn cpu_write(&mut self, addr: u16, value: u8)
        requires
            old(self).wf(),
        ensures
            final(self).wf(),
            addr <= 0x1FFF ==> final(self).cpu_ram@ == old(self).cpu_ram@.update((addr as int) % 0x800, value),
            addr > 0x1FFF ==> final(self).cpu_ram == old(self).cpu_ram,
            ({
                let sel = if addr >= 0x8000 { (addr as int) / 0x800 } else { 0 };
                &&& (sel == 0x11 || sel == 0x13 || sel == 0x15 || sel == 0x17) ==> final(self).chr_regs@ == old(self).chr_regs@.update(
                    (sel - 0x11) / 2, value)
                &&& !(sel == 0x11 || sel == 0x13 || sel == 0x15 || sel == 0x17) ==> final(self).chr_regs == old(self).chr_regs
                &&& final(self).irq_counter == (if sel == 0x19 {
                    if old(self).irq_latch {
                        (old(self).irq_counter & 0xFF00) | (value as u16)
                    } else {
                        (old(self).irq_counter & 0x00FF) | ((value as u16) << 8u16)
                    }
                } else {
                    old(self).irq_counter
                })
                &&& final(self).irq_latch == (if sel == 0x19 { !old(self).irq_latch } else if sel == 0x1B { false } else { old(self).irq_latch })
                &&& final(self).irq_enabled == (if sel == 0x1B { value & 0x10 != 0 } else { old(self).irq_enabled })
                &&& final(self).irq_pending == (if sel == 0x1B { false } else { old(self).irq_pending })
                &&& final(self).mirroring == (if sel == 0x1D { s3_mirroring(value) } else { old(self).mirroring })
                &&& final(self).prg_reg == (if sel == 0x1F { value & 0x0F } else { old(self).prg_reg })
            }),
            final(self).prg_rom == old(self).prg_rom,
            final(self).chr_8k == old(self).chr_8k,
            final(self).vram == old(self).vram,
            final(self).palette_ram == old(self).palette_ram,
            final(self).controllers == old(self).controllers,
    {
        if addr <= 0x1FFF {
            self.cpu_ram.set((addr % 0x800) as usize, value);
            return;
        }
        if addr < 0x8000 {
            return;
        }
        let sel = addr / 0x800;
        if sel == 0x11 || sel == 0x13 || sel == 0x15 || sel == 0x17 {
            self.chr_regs[((sel - 0x11) / 2) as usize] = value;
        } else if sel == 0x19 {
            if self.irq_latch {
                self.irq_counter = (self.irq_counter & 0xFF00) | value as u16;
            } else {
                self.irq_counter = (self.irq_counter & 0x00FF) | ((value as u16) << 8);
            }
            self.irq_latch = !self.irq_latch;
        } else if sel == 0x1B {
            self.irq_enabled = value & 0x10 != 0;
            self.irq_latch = false;
            self.irq_pending = false;
        } else if sel == 0x1D {
            let m = value & 0x03;
            self.mirroring = if m == 0 {
                NametableMirror::Vertical
            } else if m == 1 {
                NametableMirror::Horizontal
            } else if m == 2 {
                NametableMirror::Lower
            } else {
                NametableMirror::Higher
            };
        } else if sel == 0x1F {
            self.prg_reg = value & 0x0F;
        }
    }

    pub fn ppu_read(&self, addr: u16) -> (r: u8)
        requires
            self.wf(),
        ensures
            r == self.spec_ppu_read(addr),
    {
        if addr <= 0x1FFF {
            if self.chr_8k.len() == 0 {
                return 0;
            }
            let idx = self.chr_2k_index(addr);
            self.chr_8k[idx / 4][(idx % 4) * 2048 + (addr % 2048) as usize]
        } else if addr <= 0x3EFF {
            self.vram[mirror_nametable_addr(addr, self.mirroring) as usize]
        } else if addr <= 0x3FFF {
            self.palette_ram[palette_index(addr)]
        } else {
            0
        }
    }

    /// Nametable and palette writes; the pattern tables are ROM.
    pub fn ppu_write(&mut self, addr: u16, value: u8)
        requires
            old(self).wf(),
        ensures
            final(self).wf(),
            0x2000 <= addr <= 0x3EFF ==> final(self).vram@ == old(self).vram@.update(nt_offset(addr, old(self).mirroring), value),
            !(0x2000 <= addr <= 0x3EFF) ==> final(self).vram == old(self).vram,
            0x3F00 <= addr <= 0x3FFF ==> final(self).palette_ram@ == old(self).palette_ram@.update(palette_slot(addr), value),
            !(0x3F00 <= addr <= 0x3FFF) ==> final(self).palette_ram == old(self).palette_ram,
            final(self).cpu_ram == old(self).cpu_ram,
            final(self).prg_reg == old(self).prg_reg,
            final(self).chr_regs == old(self).chr_regs,
            final(self).mirroring == old(self).mirroring,
            final(self).prg_rom == old(self).prg_rom,
            final(self).chr_8k == old(self).chr_8k,
    {
        if 0x2000 <= addr && addr <= 0x3EFF {
            let i = mirror_nametable_addr(addr, self.mirroring) as usize;
            self.vram.set(i, value);
        } else if 0x3F00 <= addr && addr <= 0x3FFF {
            let i = palette_index(addr);
            self.palette_ram.set(i, value);
        }
    }

    /// While enabled, the counter counts CPU cycles down; wrapping past zero
    /// raises the IRQ and stops it.
    pub fn cpu_cycle(&mut self, ppu_dot: u64)
        ensures
            !old(self).irq_enabled ==> *final(self) == *old(self),
            old(self).irq_enabled ==> ({
                let c = old(self).irq_counter.wrapping_sub(1);
                &&& final(self).irq_counter == c
                &&& final(self).irq_enabled == (c != 0xFFFF)
                &&& final(self).irq_pending == (old(self).irq_pending || c == 0xFFFF)
            }),
            final(self).irq_latch == old(self).irq_latch,
            final(self).prg_reg == old(self).prg_reg,
            final(self).chr_regs == old(self).chr_regs,
            final(self).mirroring == old(self).mirroring,
            final(self).cpu_ram == old(self).cpu_ram,
            final(self).vram == old(self).vram,
            final(self).palette_ram == old(self).palette_ram,
            final(self).prg_rom == old(self).prg_rom,
            final(self).chr_8k == old(self).chr_8k,
    {
        if self.irq_enabled {
            self.irq_counter = self.irq_counter.wrapping_sub(1);
            if self.irq_counter == 0xFFFF {
                self.irq_enabled = false;
                self.irq_pending = true;
            }
        }
    }

    /// Reports a pending IRQ and acknowledges it.
    pub fn poll_irq(&mut self) -> (r: bool)
        ensures
            r == old(self).irq_pending,
            !final(self).irq_pending,
            final(self).irq_enabled == old(self).irq_enabled,
            final(self).irq_counter == old(self).irq_counter,
            final(self).irq_latch == old(self).irq_latch,
            final(self).prg_reg == old(self).prg_reg,
            final(self).chr_regs == old(self).chr_regs,
            final(self).mirroring == old(self).mirroring,
            final(self).cpu_ram == old(self).cpu_ram,
            final(self).vram == old(self).vram,
            final(self).palette_ram == old(self).palette_ram,
            final(self).prg_rom == old(self).prg_rom,
            final(self).chr_8k == old(self).chr_8k,
    {
        if self.irq_pending {
            self.irq_pending = false;
            return true;
        }
        false
    }

    pub fn code_start(&self) -> (r: u16)
        requires
            self.wf(),
        ensures
            r == word(self.spec_cpu_read(RESET_TARGET_ADDR), self.spec_cpu_read(0xFFFD)),
    {
        make_word(self.cpu_peek(RESET_TARGET_ADDR), self.cpu_peek(RESET_TARGET_ADDR + 1))
    }

    pub fn mapper_id(&self) -> (r: u8)
        ensures
            r == 67,
    {
        67
    }
}

impl Sunsoft3Mapper {
    /// The bytes `save_state` appends.
    pub open spec fn state_bytes(&self) -> Seq<u8> {
        self.cpu_ram@
            + self.vram@
            + self.palette_ram@
            + enc_u8(self.prg_reg)
            + self.chr_regs@
            + enc_bool(self.irq_enabled)
            + enc_bool(self.irq_latch)
            + enc_u16(self.irq_counter)
            + enc_bool(self.irq_pending)
            + enc_u8(mirror_code(self.mirroring))
            + controllers_bytes(self.controllers)
    }

    /// Length of the saved state.
    pub open spec fn state_len(&self) -> nat {
        (CPU_RAM_SIZE + VRAM_SIZE + PALETTE_SIZE + 2 * CONTROLLER_STATE_LEN + 11) as nat
    }

    /// Every register that the state stores in fewer bits than it is held in
    /// fits in those bits.
    pub open spec fn fits(&self) -> bool {
        true
    }

    /// The stored bytes at `p` hold a state that this cartridge can take.
    pub open spec fn state_valid(&self, d: Seq<u8>, p: int) -> bool {
        &&& mirror_from_code(d[(p + CPU_RAM_SIZE + VRAM_SIZE + PALETTE_SIZE + 10)]) is Some
    }

    /// What `load_state` answers for the bytes at `p`.
    pub open spec fn load_outcome(&self, d: Seq<u8>, p: int) -> Result<(), StateError> {
        if p + self.state_len() > d.len() {
            Err(StateError::UnexpectedEof)
        } else if !self.state_valid(d, p) {
            Err(StateError::InvalidValue)
        } else {
            Ok(())
        }
    }

    /// Every saved field holds what the bytes at `p` store.
    pub open spec fn loaded_from(&self, d: Seq<u8>, p: int) -> bool {
        &&& self.cpu_ram@ == d.subrange(p, p + CPU_RAM_SIZE)
        &&& self.vram@ == d.subrange((p + CPU_RAM_SIZE), (p + CPU_RAM_SIZE) + VRAM_SIZE)
        &&& self.palette_ram@ == d.subrange((p + CPU_RAM_SIZE + VRAM_SIZE), (p + CPU_RAM_SIZE + VRAM_SIZE) + PALETTE_SIZE)
        &&& self.prg_reg == d[(p + CPU_RAM_SIZE + VRAM_SIZE + PALETTE_SIZE)]
        &&& self.chr_regs@ == d.subrange((p + CPU_RAM_SIZE + VRAM_SIZE + PALETTE_SIZE + 1), (p + CPU_RAM_SIZE + VRAM_SIZE + PALETTE_SIZE + 1) + 4)
        &&& self.irq_enabled == (d[(p + CPU_RAM_SIZE + VRAM_SIZE + PALETTE_SIZE + 5)] != 0)
        &&& self.irq_latch == (d[(p + CPU_RAM_SIZE + VRAM_SIZE + PALETTE_SIZE + 6)] != 0)
        &&& self.irq_counter == dec_u16_at(d, (p + CPU_RAM_SIZE + VRAM_SIZE + PALETTE_SIZE + 7))
        &&& self.irq_pending == (d[(p + CPU_RAM_SIZE + VRAM_SIZE + PALETTE_SIZE + 9)] != 0)
        &&& self.mirroring == mirror_from_code(d[(p + CPU_RAM_SIZE + VRAM_SIZE + PALETTE_SIZE + 10)])->0
        &&& self.controllers@[0] == controller_at(d, (p + CPU_RAM_SIZE + VRAM_SIZE + PALETTE_SIZE + 11))
        &&& self.controllers@[1] == controller_at(d, (p + CPU_RAM_SIZE + VRAM_SIZE + PALETTE_SIZE + 11) + CONTROLLER_STATE_LEN)
    }

    /// The two agree on every saved field.
    pub open spec fn same_state(&self, other: &Self) -> bool {
        &&& self.cpu_ram@ == other.cpu_ram@
        &&& self.vram@ == other.vram@
        &&& self.palette_ram@ == other.palette_ram@
        &&& self.prg_reg == other.prg_reg
        &&& self.chr_regs@ == other.chr_regs@
        &&& self.irq_enabled == other.irq_enabled
        &&& self.irq_latch == other.irq_latch
        &&& self.irq_counter == other.irq_counter
        &&& self.irq_pending == other.irq_pending
        &&& self.mirroring == other.mirroring
        &&& self.controllers@ == other.controllers@
    }

    /// The two agree on every field that the state does not store.
    pub open spec fn keeps_unsaved(&self, other: &Self) -> bool {
        &&& self.prg_rom == other.prg_rom
        &&& self.chr_8k == other.chr_8k
    }

    /// The two come from cartridges of the same shape.
    pub open spec fn same_layout(&self, other: &Self) -> bool {
        true
    }

    #[verifier::spinoff_prover]
    pub fn save_state(&self, w: &mut SavestateWriter)
        ensures
            final(w).buf@ == old(w).buf@ + self.state_bytes(),
    {
        let ghost b = w.buf@;
        let ghost s0 = self.cpu_ram@;
        let ghost s1 = s0 + self.vram@;
        let ghost s2 = s1 + self.palette_ram@;
        let ghost s3 = s2 + enc_u8(self.prg_reg);
        let ghost s4 = s3 + self.chr_regs@;
        let ghost s5 = s4 + enc_bool(self.irq_enabled);
        let ghost s6 = s5 + enc_bool(self.irq_latch);
        let ghost s7 = s6 + enc_u16(self.irq_counter);
        let ghost s8 = s7 + enc_bool(self.irq_pending);
        let ghost s9 = s8 + enc_u8(mirror_code(self.mirroring));
        let ghost s10 = s9 + controllers_bytes(self.controllers);
        w.write_bytes(self.cpu_ram.as_slice());
        w.write_bytes(self.vram.as_slice());
        proof {
            lemma_add_assoc(b, s0, self.vram@);
        }
        w.write_bytes(self.palette_ram.as_slice());
        proof {
            lemma_add_assoc(b, s1, self.palette_ram@);
        }
        w.write_u8(self.prg_reg);
        proof {
            lemma_add_assoc(b, s2, enc_u8(self.prg_reg));
        }
        w.write_bytes(self.chr_regs.as_slice());
        proof {
            lemma_add_assoc(b, s3, self.chr_regs@);
        }
        w.write_bool(self.irq_enabled);
        proof {
            lemma_add_assoc(b, s4, enc_bool(self.irq_enabled));
        }
        w.write_bool(self.irq_latch);
        proof {
            lemma_add_assoc(b, s5, enc_bool(self.irq_latch));
        }
        w.write_u16(self.irq_counter);
        proof {
            lemma_add_assoc(b, s6, enc_u16(self.irq_counter));
        }
        w.write_bool(self.irq_pending);
        proof {
            lemma_add_assoc(b, s7, enc_bool(self.irq_pending));
        }
        save_mirroring(w, self.mirroring);
        proof {
            lemma_add_assoc(b, s8, enc_u8(mirror_code(self.mirroring)));
        }
        save_controllers(w, &self.controllers);
        proof {
            lemma_add_assoc(b, s9, controllers_bytes(self.controllers));
        }
    }

    /// Restores a state written by `save_state`. Nothing changes unless the
    /// whole state is there and holds values this cartridge can take.
    #[verifier::spinoff_prover]
    pub fn load_state(&mut self, r: &mut SavestateReader) -> (res: Result<(), StateError>)
        requires
            old(self).wf(),
            old(r).wf(),
        ensures
            final(r).wf(),
            final(r).data@ == old(r).data@,
            res == old(self).load_outcome(old(r).data@, old(r).pos as int),
            res is Err ==> *final(self) == *old(self) && final(r).pos == old(r).pos,
            res is Ok ==> final(self).wf() && final(self).loaded_from(old(r).data@, old(r).pos as int)
                && final(self).keeps_unsaved(&*old(self)) && final(self).same_layout(&*old(self))
                && final(r).pos == old(r).pos + old(self).state_len(),
    {
        let ghost d = r.data@;
        let ghost p = r.pos as int;
        let start = r.pos;
        if r.remaining_len() < CPU_RAM_SIZE + VRAM_SIZE + PALETTE_SIZE + 2 * CONTROLLER_STATE_LEN + 11 {
            return Err(StateError::UnexpectedEof);
        }
        let cpu_ram = r.take_bytes(CPU_RAM_SIZE);
        let vram = r.take_bytes(VRAM_SIZE);
        let palette_ram = r.take_bytes(PALETTE_SIZE);
        let prg_reg = r.take_u8();
        let chr_regs_bytes = r.take_bytes(4);
        let mut chr_regs = self.chr_regs;
        copy_into_array(&mut chr_regs, &chr_regs_bytes);
        let irq_enabled = r.take_bool();
        let irq_latch = r.take_bool();
        let irq_counter = r.take_u16();
        let irq_pending = r.take_bool();
        let mirroring_code = r.take_u8();
        let controllers = take_controllers(r);
        let mirroring = match mirroring_from_code(mirroring_code) {
            Some(m) => m,
            None => {
                r.rewind(start);
                return Err(StateError::InvalidValue);
            },
        };
        self.cpu_ram = cpu_ram;
        self.vram = vram;
        self.palette_ram = palette_ram;
        self.prg_reg = prg_reg;
        self.chr_regs = chr_regs;
        self.irq_enabled = irq_enabled;
        self.irq_latch = irq_latch;
        self.irq_counter = irq_counter;
        self.irq_pending = irq_pending;
        self.mirroring = mirroring;
        self.controllers = controllers;
        Ok(())
    }

    /// Saving a state and loading it into a cartridge of the same shape
    /// succeeds and restores every saved field.
    #[verifier::spinoff_prover]
    pub proof fn lemma_state_roundtrip(o: Self, m: Self, n: Self, d: Seq<u8>, p: int)
        requires
            o.wf(),
            m.wf(),
            m.fits(),
            o.same_layout(&m),
            n.same_layout(&m),
            stored_at(d, p, m.state_bytes()),
        ensures
            o.load_outcome(d, p) == Ok::<(), StateError>(()),
            n.loaded_from(d, p) ==> n.same_state(&m),
    {
        let s0 = m.cpu_ram@;
        let s1 = s0 + m.vram@;
        let s2 = s1 + m.palette_ram@;
        let s3 = s2 + enc_u8(m.prg_reg);
        let s4 = s3 + m.chr_regs@;
        let s5 = s4 + enc_bool(m.irq_enabled);
        let s6 = s5 + enc_bool(m.irq_latch);
        let s7 = s6 + enc_u16(m.irq_counter);
        let s8 = s7 + enc_bool(m.irq_pending);
        let s9 = s8 + enc_u8(mirror_code(m.mirroring));
        let s10 = s9 + controllers_bytes(m.controllers);
        lemma_stored_split(d, p, s9, controllers_bytes(m.controllers));
        lemma_stored_split(d, p, s8, enc_u8(mirror_code(m.mirroring)));
        lemma_stored_split(d, p, s7, enc_bool(m.irq_pending));
        lemma_stored_split(d, p, s6, enc_u16(m.irq_counter));
        lemma_stored_split(d, p, s5, enc_bool(m.irq_latch));
        lemma_stored_split(d, p, s4, enc_bool(m.irq_enabled));
        lemma_stored_split(d, p, s3, m.chr_regs@);
        lemma_stored_split(d, p, s2, enc_u8(m.prg_reg));
        lemma_stored_split(d, p, s1, m.palette_ram@);
        lemma_stored_split(d, p, s0, m.vram@);
        lemma_stored_u8(d, (p + CPU_RAM_SIZE + VRAM_SIZE + PALETTE_SIZE), m.prg_reg);
        lemma_stored_bool(d, (p + CPU_RAM_SIZE + VRAM_SIZE + PALETTE_SIZE + 5), m.irq_enabled);
        lemma_stored_bool(d, (p + CPU_RAM_SIZE + VRAM_SIZE + PALETTE_SIZE + 6), m.irq_latch);
        lemma_stored_u16(d, (p + CPU_RAM_SIZE + VRAM_SIZE + PALETTE_SIZE + 7), m.irq_counter);
        lemma_stored_bool(d, (p + CPU_RAM_SIZE + VRAM_SIZE + PALETTE_SIZE + 9), m.irq_pending);
        lemma_stored_u8(d, (p + CPU_RAM_SIZE + VRAM_SIZE + PALETTE_SIZE + 10), mirror_code(m.mirroring));
        lemma_mirror_code_roundtrip(m.mirroring);
        lemma_stored_controllers(d, (p + CPU_RAM_SIZE + VRAM_SIZE + PALETTE_SIZE + 11), m.controllers);
        if n.loaded_from(d, p) {
            assert(n.controllers@ =~= m.controllers@);
        }
    }
}

/// The last 16KB PRG bank is fixed at $C000-$FFFF, where the CPU finds its
/// vectors, whatever the bank register holds.
pub proof fn lemma_sunsoft3_fixed_last_bank(m: Sunsoft3Mapper, addr: u16)
    requires
        m.prg_rom@.len() > 0,
        0xC000 <= addr,
    ensures
        m.spec_cpu_read(addr) == m.prg_rom@[m.prg_rom@.len() - 1][addr - 0xC000],
{
    assert((addr as int) % 0x4000 == addr - 0xC000);
}

} // verus!
