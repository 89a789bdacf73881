//! Irem G-101 (mapper 32): two switchable 8KB PRG banks with a swap mode,
//! eight 1KB CHR banks and, except on submapper 1, switchable mirroring.

use vstd::prelude::*;
use crate::bus::{NametableMirror, CPU_RAM_SIZE, VRAM_SIZE, PALETTE_SIZE, RESET_TARGET_ADDR, nt_offset, mirror_nametable_addr, palette_slot, palette_index, word, make_word};
use crate::ppu_bus::{zeroed, filled};
use crate::controller::Controller;
use crate::mapper::common::{new_controllers, split_16k_to_8k, copied_into, min_len, copy_vec_to_front, copy_bank_to_front};

use crate::savestate::{SavestateWriter, SavestateReader, StateError, enc_u8, enc_bool, stored_at, lemma_stored_split, lemma_stored_u8, lemma_stored_bool, copy_into_array};
use crate::controller::{controllers_bytes, controller_at, save_controllers, take_controllers, lemma_stored_controllers, CONTROLLER_STATE_LEN};
use crate::ppu_bus::{mirror_code, mirror_from_code, mirroring_from_code, save_mirroring, lemma_mirror_code_roundtrip};

verus! {

pub const PRG_BANK_SIZE: usize = 0x2000;
pub const CHR_BANK_SIZE: usize = 0x0400;
pub const WRAM_SIZE: usize = 0x2000;

pub struct IremG101Mapper {
    pub controllers: [Controller; 2],
    pub prg_rom: Vec<[u8; PRG_BANK_SIZE]>,
    pub chr_8k: Vec<[u8; 8192]>,
    pub prg_reg0: u8,
    pub prg_reg1: u8,
    pub prg_mode: bool,
    pub chr_regs: [u8; 8],
    pub mirroring: NametableMirror,
    pub is_submapper1: bool,
    pub wram: Vec<u8>,
    pub vram: Vec<u8>,
    pub cpu_ram: Vec<u8>,
    pub palette_ram: Vec<u8>,
}

/// `n - k`, or zero when that would be negative.
pub open spec fn sat_sub(n: int, k: int) -> int {
    if n >= k { n - k } else { 0 }
}

impl IremG101Mapper {
    pub open spec fn wf(&self) -> bool {
        &&& self.cpu_ram@.len() == CPU_RAM_SIZE
        &&& self.wram@.len() == WRAM_SIZE
        &&& self.vram@.len() == VRAM_SIZE
        &&& self.palette_ram@.len() == PALETTE_SIZE
        &&& 8 * self.chr_8k@.len() <= usize::MAX
    }

    /// The 8KB bank mapped at a CPU address in $8000-$FFFF.
    pub open spec fn spec_prg_bank_at(&self, addr: u16) -> int {
        let len: int = if self.prg_rom@.len() == 0 { 1 } else { self.prg_rom@.len() as int };
        let bank: int = if addr <= 0x9FFF {
            if !self.prg_mode { self.prg_reg0 as int } else { sat_sub(len, 2) }
        } else if addr <= 0xBFFF {
            self.prg_reg1 as int
        } else if addr <= 0xDFFF {
            if !self.prg_mode { sat_sub(len, 2) } else { self.prg_reg0 as int }
        } else {
            sat_sub(len, 1)
        };
        bank % len
    }

    pub open spec fn spec_cpu_read(&self, addr: u16) -> u8 {
        if addr <= 0x1FFF {
            self.cpu_ram@[(addr as int) % 0x800]
        } else if 0x6000 <= addr <= 0x7FFF {
            self.wram@[addr - 0x6000]
        } else if addr >= 0x8000 {
            let bank = self.spec_prg_bank_at(addr);
            if bank < self.prg_rom@.len() { self.prg_rom@[bank][(addr as int) % 0x2000] } else { 0 }
        } else {
            0
        }
    }

    /// The 1KB CHR page selected for a pattern-table address.
    pub open spec fn spec_chr_index(&self, addr: u16) -> int {
        let n: int = if self.chr_8k@.len() == 0 { 1 } else { 8 * self.chr_8k@.len() as int };
        self.chr_regs@[((addr as int) / 1024) % 8] as int % n
    }

    pub open spec fn spec_ppu_read(&self, addr: u16) -> u8 {
        if addr <= 0x1FFF {
            let idx = self.spec_chr_index(addr);
            if self.chr_8k@.len() == 0 { 0 } else { self.chr_8k@[idx / 8][(idx % 8) * 1024 + (addr as int) % 1024] }
        } else if addr <= 0x3EFF {
            self.vram@[nt_offset(addr, self.mirroring)]
        } else if addr <= 0x3FFF {
            self.palette_ram@[palette_slot(addr)]
        } else {
            0
        }
    }

    /// Submapper 1 is wired for single-screen mirroring; otherwise flags 6
    /// bit 0 picks vertical mirroring. PRG starts with banks 0 and 1, CHR
    /// with pages 0-7.
    pub fn new(flags: u8, prg_banks_16k: Vec<[u8; 16384]>, chr_banks_8k: Vec<[u8; 8192]>, submapper: u8) -> (m: IremG101Mapper)
        requires
            2 * prg_banks_16k@.len() <= usize::MAX,
            8 * chr_banks_8k@.len() <= usize::MAX,
        ensures
            m.wf(),
            m.prg_rom@.len() == 2 * prg_banks_16k@.len(),
            forall|i: int| 0 <= i < m.prg_rom@.len() ==> #[trigger] m.prg_rom@[i]@ == prg_banks_16k@[i / 2]@.subrange(
                (i % 2) * 8192,
                (i % 2) * 8192 + 8192,
            ),
            m.chr_8k@ == chr_banks_8k@,
            m.prg_reg0 == 0 && m.prg_reg1 == 1 && !m.prg_mode,
            forall|i: int| 0 <= i < 8 ==> m.chr_regs@[i] == i,
            m.is_submapper1 == (submapper == 1),
            m.mirroring == (if submapper == 1 {
                NametableMirror::Lower
            } else if flags & 1 != 0 {
                NametableMirror::Vertical
            } else {
                NametableMirror::Horizontal
            }),
            m.cpu_ram@ == Seq::new(CPU_RAM_SIZE as nat, |i: int| 0u8),
            m.wram@ == Seq::new(WRAM_SIZE as nat, |i: int| 0u8),
            m.vram@ == Seq::new(VRAM_SIZE as nat, |i: int| 0u8),
            m.palette_ram@ == Seq::new(PALETTE_SIZE as nat, |i: int| 0x0Fu8),
    {
        let prg_rom = split_16k_to_8k(&prg_banks_16k);
        let is_submapper1 = submapper == 1;
        let mirroring = if is_submapper1 {
            NametableMirror::Lower
        } else if flags & 1 != 0 {
            NametableMirror::Vertical
        } else {
            NametableMirror::Horizontal
        };
        IremG101Mapper {
            controllers: new_controllers(),
            prg_rom,
            chr_8k: chr_banks_8k,
            prg_reg0: 0,
            prg_reg1: 1,
            prg_mode: false,
            chr_regs: [0, 1, 2, 3, 4, 5, 6, 7],
            mirroring,
            is_submapper1,
            wram: zeroed(WRAM_SIZE),
            vram: zeroed(VRAM_SIZE),
            cpu_ram: zeroed(CPU_RAM_SIZE),
            palette_ram: filled(PALETTE_SIZE, 0x0F),
        }
    }

    fn prg_bank_at(&self, addr: u16) -> (r: usize)
        requires
            addr >= 0x8000,
        ensures
            r as int == self.spec_prg_bank_at(addr),
    {
        let len = if self.prg_rom.len() == 0 { 1 } else { self.prg_rom.len() };
        let bank: usize = if addr <= 0x9FFF {
            if !self.prg_mode { self.prg_reg0 as usize } else { len.saturating_sub(2) }
        } else if addr <= 0xBFFF {
            self.prg_reg1 as usize
        } else if addr <= 0xDFFF {
            if !self.prg_mode { len.saturating_sub(2) } else { self.prg_reg0 as usize }
        } else {
            len.saturating_sub(1)
        };
        bank % len
    }

    fn prg_read(&self, addr: u16) -> (r: u8)
        requires
            addr >= 0x8000,
        ensures
            r == self.spec_cpu_read(addr),
    {
        let bank = self.prg_bank_at(addr);
        if bank < self.prg_rom.len() {
            self.prg_rom[bank][(addr % 0x2000) as usize]
        } else {
            0
        }
    }

    fn chr_1k_index(&self, addr: u16) -> (r: usize)
        requires
            self.wf(),
        ensures
            r as int == self.spec_chr_index(addr),
            self.chr_8k@.len() > 0 ==> r < 8 * self.chr_8k@.len(),
    {
        let slot = ((addr / 1024) % 8) as usize;
        let n = if self.chr_8k.len() == 0 { 1 } else { 8 * self.chr_8k.len() };
        self.chr_regs[slot] as usize % n
    }

    pub fn cpu_peek(&self, addr: u16) -> (r: u8)
        requires
            self.wf(),
        ensures
            r == self.spec_cpu_read(addr),
    {
        if addr <= 0x1FFF {
            self.cpu_ram[(addr % 0x800) as usize]
        } else if 0x6000 <= addr && addr <= 0x7FFF {
            self.wram[(addr - 0x6000) as usize]
        } else if addr >= 0x8000 {
            self.prg_read(addr)
        } else {
            0
        }
    }

    pub fn cpu_read(&self, addr: u16) -> (r: u8)
        requires
            self.wf(),
        ensures
            r == self.spec_cpu_read(addr),
    {
        self.cpu_peek(addr)
    }

    /// $8000 selects the first PRG bank, $9000 mirroring and PRG mode (not
    /// on submapper 1), $A000 the second PRG bank, $B000-$B007 the CHR pages.
    pub fn cpu_write(&mut self, addr: u16, value: u8)
        requires
            old(self).wf(),
        ensures
            final(self).wf(),
            addr <= 0x1FFF ==> final(self).cpu_ram@ == old(self).cpu_ram@.update((addr as int) % 0x800, value),
            addr > 0x1FFF ==> final(self).cpu_ram == old(self).cpu_ram,
            0x6000 <= addr <= 0x7FFF ==> final(self).wram@ == old(self).wram@.update(addr - 0x6000, value),
            !(0x6000 <= addr <= 0x7FFF) ==> final(self).wram == old(self).wram,
            final(self).prg_reg0 == (if 0x8000 <= addr <= 0x8FFF { value & 0x1F } else { old(self).prg_reg0 }),
            final(self).prg_reg1 == (if 0xA000 <= addr <= 0xAFFF { value & 0x1F } else { old(self).prg_reg1 }),
            0x9000 <= addr <= 0x9FFF && !old(self).is_submapper1 ==> final(self).prg_mode == (value & 2 != 0)
                && final(self).mirroring == (if value & 1 != 0 { NametableMirror::Horizontal } else { NametableMirror::Vertical }),
            !(0x9000 <= addr <= 0x9FFF && !old(self).is_submapper1) ==> final(self).prg_mode == old(self).prg_mode
                && final(self).mirroring == old(self).mirroring,
            0xB000 <= addr <= 0xBFFF ==> final(self).chr_regs@ == old(self).chr_regs@.update((addr as int) % 8, value),
            !(0xB000 <= addr <= 0xBFFF) ==> final(self).chr_regs == old(self).chr_regs,
            final(self).prg_rom == old(self).prg_rom,
            final(self).chr_8k == old(self).chr_8k,
            final(self).is_submapper1 == old(self).is_submapper1,
            final(self).vram == old(self).vram,
            final(self).palette_ram == old(self).palette_ram,
            final(self).controllers == old(self).controllers,
    {
        if addr <= 0x1FFF {
            self.cpu_ram.set((addr % 0x800) as usize, value);
        } else if 0x6000 <= addr && addr <= 0x7FFF {
            self.wram.set((addr - 0x6000) as usize, value);
        } else if 0x8000 <= addr && addr <= 0x8FFF {
            self.prg_reg0 = value & 0x1F;
        } else if 0x9000 <= addr && addr <= 0x9FFF {
            if !self.is_submapper1 {
                self.mirroring = if value & 1 != 0 {
                    NametableMirror::Horizontal
                } else {
                    NametableMirror::Vertical
                };
                self.prg_mode = value & 2 != 0;
            }
        } else if 0xA000 <= addr && addr <= 0xAFFF {
            self.prg_reg1 = value & 0x1F;
        } else if 0xB000 <= addr && addr <= 0xBFFF {
            self.chr_regs[(addr % 8) as usize] = value;
        }
    }

    pub fn ppu_read(&self, addr: u16) -> (r: u8)
        requires
            self.wf(),
        ensures
            r == self.spec_ppu_read(addr),
    {
        if addr <= 0x1FFF {
            if self.chr_8k.len() == 0 {
                return 0;
            }
            let idx = self.chr_1k_index(addr);
            self.chr_8k[idx / 8][(idx % 8) * 1024 + (addr % 1024) as usize]
        } else if addr <= 0x3EFF {
            self.vram[mirror_nametable_addr(addr, self.mirroring) as usize]
        } else if addr <= 0x3FFF {
            self.palette_ram[palette_index(addr)]
        } else {
            0
        }
    }

    /// Nametable and palette writes; the pattern tables are ROM.
    pub fn ppu_write(&mut self, addr: u16, value: u8)
        requires
            old(self).wf(),
        ensures
            final(self).wf(),
            0x2000 <= addr <= 0x3EFF ==> final(self).vram@ == old(self).vram@.update(nt_offset(addr, old(self).mirroring), value),
            !(0x2000 <= addr <= 0x3EFF) ==> final(self).vram == old(self).vram,
            0x3F00 <= addr <= 0x3FFF ==> final(self).palette_ram@ == old(self).palette_ram@.update(palette_slot(addr), value),
            !(0x3F00 <= addr <= 0x3FFF) ==> final(self).palette_ram == old(self).palette_ram,
            final(self).cpu_ram == old(self).cpu_ram,
            final(self).wram == old(self).wram,
            final(self).prg_reg0 == old(self).prg_reg0,
            final(self).prg_reg1 == old(self).prg_reg1,
            final(self).prg_mode == old(self).prg_mode,
            final(self).chr_regs == old(self).chr_regs,
            final(self).mirroring == old(self).mirroring,
            final(self).prg_rom == old(self).prg_rom,
            final(self).chr_8k == old(self).chr_8k,
    {
        if 0x2000 <= addr && addr <= 0x3EFF {
            let i = mirror_nametable_addr(addr, self.mirroring) as usize;
            self.vram.set(i, value);
        } else if 0x3F00 <= addr && addr <= 0x3FFF {
            let i = palette_index(addr);
            self.palette_ram.set(i, value);
        }
    }

    pub fn code_start(&self) -> (r: u16)
        requires
            self.wf(),
        ensures
            r == word(self.spec_cpu_read(RESET_TARGET_ADDR), self.spec_cpu_read(0xFFFD)),
    {
        make_word(self.cpu_peek(RESET_TARGET_ADDR), self.cpu_peek(RESET_TARGET_ADDR + 1))
    }

    pub fn poll_irq(&self) -> (r: bool)
        ensures
            !r,
    {
        false
    }

    pub fn mapper_id(&self) -> (r: u8)
        ensures
            r == 32,
    {
        32
    }
}

impl IremG101Mapper {
    /// The bytes `save_state` appends.
    pub open spec fn state_bytes(&self) -> Seq<u8> {
        self.cpu_ram@
            + self.wram@
            + self.vram@
            + self.palette_ram@
            + enc_u8(self.prg_reg0)
            + enc_u8(self.prg_reg1)
            + enc_bool(self.prg_mode)
            + self.chr_regs@
            + enc_u8(mirror_code(self.mirroring))
            + controllers_bytes(self.controllers)
    }

    /// Length of the saved state.
    pub open spec fn state_len(&self) -> nat {
        (CPU_RAM_SIZE + WRAM_SIZE + VRAM_SIZE + PALETTE_SIZE + 2 * CONTROLLER_STATE_LEN + 12) as nat
    }

    /// Every register that the state stores in fewer bits than it is held in
    /// fits in those bits.
    pub open spec fn fits(&self) -> bool {
        true
    }

    /// The stored bytes at `p` hold a state that this cartridge can take.
    pub open spec fn state_valid(&self, d: Seq<u8>, p: int) -> bool {
        &&& mirror_from_code(d[(p + CPU_RAM_SIZE + WRAM_SIZE + VRAM_SIZE + PALETTE_SIZE + 11)]) is Some
    }

    /// What `load_state` answers for the bytes at `p`.
    pub open spec fn load_outcome(&self, d: Seq<u8>, p: int) -> Result<(), StateError> {
        if p + self.state_len() > d.len() {
            Err(StateError::UnexpectedEof)
        } else if !self.state_valid(d, p) {
            Err(StateError::InvalidValue)
        } else {
            Ok(())
        }
    }

    /// Every saved field holds what the bytes at `p` store.
    pub open spec fn loaded_from(&self, d: Seq<u8>, p: int) -> bool {
        &&& self.cpu_ram@ == d.subrange(p, p + CPU_RAM_SIZE)
        &&& self.wram@ == d.subrange((p + CPU_RAM_SIZE), (p + CPU_RAM_SIZE) + WRAM_SIZE)
        &&& self.vram@ == d.subrange((p + CPU_RAM_SIZE + WRAM_SIZE), (p + CPU_RAM_SIZE + WRAM_SIZE) + VRAM_SIZE)
        &&& self.palette_ram@ == d.subrange((p + CPU_RAM_SIZE + WRAM_SIZE + VRAM_SIZE), (p + CPU_RAM_SIZE + WRAM_SIZE + VRAM_SIZE) + PALETTE_SIZE)
        &&& self.prg_reg0 == d[(p + CPU_RAM_SIZE + WRAM_SIZE + VRAM_SIZE + PALETTE_SIZE)]
        &&& self.prg_reg1 == d[(p + CPU_RAM_SIZE + WRAM_SIZE + VRAM_SIZE + PALETTE_SIZE + 1)]
        &&& self.prg_mode == (d[(p + CPU_RAM_SIZE + WRAM_SIZE + VRAM_SIZE + PALETTE_SIZE + 2)] != 0)
        &&& self.chr_regs@ == d.subrange((p + CPU_RAM_SIZE + WRAM_SIZE + VRAM_SIZE + PALETTE_SIZE + 3), (p + CPU_RAM_SIZE + WRAM_SIZE + VRAM_SIZE + PALETTE_SIZE + 3) + 8)
        &&& self.mirroring == mirror_from_code(d[(p + CPU_RAM_SIZE + WRAM_SIZE + VRAM_SIZE + PALETTE_SIZE + 11)])->0
        &&& self.controllers@[0] == controller_at(d, (p + CPU_RAM_SIZE + WRAM_SIZE + VRAM_SIZE + PALETTE_SIZE + 12))
        &&& self.controllers@[1] == controller_at(d, (p + CPU_RAM_SIZE + WRAM_SIZE + VRAM_SIZE + PALETTE_SIZE + 12) + CONTROLLER_STATE_LEN)
    }

    /// The two agree on every saved field.
    pub open spec fn same_state(&self, other: &Self) -> bool {
        &&& self.cpu_ram@ == other.cpu_ram@
        &&& self.wram@ == other.wram@
        &&& self.vram@ == other.vram@
        &&& self.palette_ram@ == other.palette_ram@
        &&& self.prg_reg0 == other.prg_reg0
        &&& self.prg_reg1 == other.prg_reg1
        &&& self.prg_mode == other.prg_mode
        &&& self.chr_regs@ == other.chr_regs@
        &&& self.mirroring == other.mirroring
        &&& self.controllers@ == other.controllers@
    }

    /// The two agree on every field that the state does not store.
    pub open spec fn keeps_unsaved(&self, other: &Self) -> bool {
        &&& self.prg_rom == other.prg_rom
        &&& self.chr_8k == other.chr_8k
        &&& self.is_submapper1 == other.is_submapper1
    }

    /// The two come from cartridges of the same shape.
    pub open spec fn same_layout(&self, other: &Self) -> bool {
        true
    }

    #[verifier::spinoff_prover]
    pub fn save_state(&self, w: &mut SavestateWriter)
        ensures
            final(w).buf@ == old(w).buf@ + self.state_bytes(),
    {
        w.write_bytes(self.cpu_ram.as_slice());
        w.write_bytes(self.wram.as_slice());
        w.write_bytes(self.vram.as_slice());
        w.write_bytes(self.palette_ram.as_slice());
        w.write_u8(self.prg_reg0);
        w.write_u8(self.prg_reg1);
        w.write_bool(self.prg_mode);
        w.write_bytes(self.chr_regs.as_slice());
        save_mirroring(w, self.mirroring);
        save_controllers(w, &self.controllers);
        assert(w.buf@ =~= old(w).buf@ + self.state_bytes());
    }

    /// Restores a state written by `save_state`. Nothing changes unless the
    /// whole state is there and holds values this cartridge can take.
    #[verifier::spinoff_prover]
    pub fn load_state(&mut self, r: &mut SavestateReader) -> (res: Result<(), StateError>)
        requires
            old(self).wf(),
            old(r).wf(),
        ensures
            final(r).wf(),
            final(r).data@ == old(r).data@,
            res == old(self).load_outcome(old(r).data@, old(r).pos as int),
            res is Err ==> *final(self) == *old(self) && final(r).pos == old(r).pos,
            res is Ok ==> final(self).wf() && final(self).loaded_from(old(r).data@, old(r).pos as int)
                && final(self).keeps_unsaved(&*old(self)) && final(self).same_layout(&*old(self))
                && final(r).pos == old(r).pos + old(self).state_len(),
    {
        let ghost d = r.data@;
        let ghost p = r.pos as int;
        let start = r.pos;
        if r.remaining_len() < CPU_RAM_SIZE + WRAM_SIZE + VRAM_SIZE + PALETTE_SIZE + 2 * CONTROLLER_STATE_LEN + 12 {
            return Err(StateError::UnexpectedEof);
        }
        let cpu_ram = r.take_bytes(CPU_RAM_SIZE);
        let wram = r.take_bytes(WRAM_SIZE);
        let vram = r.take_bytes(VRAM_SIZE);
        let palette_ram = r.take_bytes(PALETTE_SIZE);
        let prg_reg0 = r.take_u8();
        let prg_reg1 = r.take_u8();
        let prg_mode = r.take_bool();
        let chr_regs_bytes = r.take_bytes(8);
        let mut chr_regs = self.chr_regs;
        copy_into_array(&mut chr_regs, &chr_regs_bytes);
        let mirroring_code = r.take_u8();
        let controllers = take_controllers(r);
        let mirroring = match mirroring_from_code(mirroring_code) {
            Some(m) => m,
            None => {
                r.rewind(start);
                return Err(StateError::InvalidValue);
            },
        };
        self.cpu_ram = cpu_ram;
        self.wram = wram;
        self.vram = vram;
        self.palette_ram = palette_ram;
        self.prg_reg0 = prg_reg0;
        self.prg_reg1 = prg_reg1;
        self.prg_mode = prg_mode;
        self.chr_regs = chr_regs;
        self.mirroring = mirroring;
        self.controllers = controllers;
        Ok(())
    }

    /// Saving a state and loading it into a cartridge of the same shape
    /// succeeds and restores every saved field.
    #[verifier::spinoff_prover]
    pub proof fn lemma_state_roundtrip(o: Self, m: Self, n: Self, d: Seq<u8>, p: int)
        requires
            o.wf(),
            m.wf(),
            m.fits(),
            o.same_layout(&m),
            n.same_layout(&m),
            stored_at(d, p, m.state_bytes()),
        ensures
            o.load_outcome(d, p) == Ok::<(), StateError>(()),
            n.loaded_from(d, p) ==> n.same_state(&m),
    {
        let s0 = m.cpu_ram@;
        let s1 = s0 + m.wram@;
        let s2 = s1 + m.vram@;
        let s3 = s2 + m.palette_ram@;
        let s4 = s3 + enc_u8(m.prg_reg0);
        let s5 = s4 + enc_u8(m.prg_reg1);
        let s6 = s5 + enc_bool(m.prg_mode);
        let s7 = s6 + m.chr_regs@;
        let s8 = s7 + enc_u8(mirror_code(m.mirroring));
        let s9 = s8 + controllers_bytes(m.controllers);
        lemma_stored_split(d, p, s8, controllers_bytes(m.controllers));
        lemma_stored_split(d, p, s7, enc_u8(mirror_code(m.mirroring)));
        lemma_stored_split(d, p, s6, m.chr_regs@);
        lemma_stored_split(d, p, s5, enc_bool(m.prg_mode));
        lemma_stored_split(d, p, s4, enc_u8(m.prg_reg1));
        lemma_stored_split(d, p, s3, enc_u8(m.prg_reg0));
        lemma_stored_split(d, p, s2, m.palette_ram@);
        lemma_stored_split(d, p, s1, m.vram@);
        lemma_stored_split(d, p, s0, m.wram@);
        lemma_stored_u8(d, (p + CPU_RAM_SIZE + WRAM_SIZE + VRAM_SIZE + PALETTE_SIZE), m.prg_reg0);
        lemma_stored_u8(d, (p + CPU_RAM_SIZE + WRAM_SIZE + VRAM_SIZE + PALETTE_SIZE + 1), m.prg_reg1);
        lemma_stored_bool(d, (p + CPU_RAM_SIZE + WRAM_SIZE + VRAM_SIZE + PALETTE_SIZE + 2), m.prg_mode);
        lemma_stored_u8(d, (p + CPU_RAM_SIZE + WRAM_SIZE + VRAM_SIZE + PALETTE_SIZE + 11), mirror_code(m.mirroring));
        lemma_mirror_code_roundtrip(m.mirroring);
        lemma_stored_controllers(d, (p + CPU_RAM_SIZE + WRAM_SIZE + VRAM_SIZE + PALETTE_SIZE + 12), m.controllers);
        if n.loaded_from(d, p) {
            assert(n.controllers@ =~= m.controllers@);
        }
    }
}

impl IremG101Mapper {
    /// Where a bulk copy of `size` bytes from `addr` reads: the rest of the
    /// selected 1KB pattern page, or the nametable RAM up to its end.
    pub open spec fn copy_run(&self, addr: u16, size: int) -> Option<(Seq<u8>, int, int)> {
        if addr <= 0x1FFF {
            if self.chr_8k@.len() == 0 {
                None
            } else {
                let idx = self.spec_chr_index(addr);
                let off = (addr as int) % 1024;
                Some((self.chr_8k@[idx / 8]@, (idx % 8) * 1024 + off, min_len(size, 1024 - off)))
            }
        } else if addr <= 0x3EFF {
            let v = nt_offset(addr, self.mirroring);
            Some((self.vram@, v, min_len(size, VRAM_SIZE - v)))
        } else {
            None
        }
    }

    /// Copies up to `size` bytes of PPU memory from `addr` to the front of
    /// `dest`, from one run of the memory behind that address.
    pub fn ppu_copy(&self, addr: u16, dest: &mut Vec<u8>, size: usize)
        requires
            self.wf(),
            size <= old(dest)@.len(),
        ensures
            match self.copy_run(addr, size as int) {
                Some((src, off, n)) => final(dest)@ == copied_into(old(dest)@, src, off, n),
                None => final(dest)@ == old(dest)@,
            },
    {
        if addr <= 0x1FFF {
            if self.chr_8k.len() > 0 {
                let idx = self.chr_1k_index(addr);
                let off = (addr % 1024) as usize;
                let n = if size < 1024 - off { size } else { 1024 - off };
                copy_bank_to_front(dest, &self.chr_8k[idx / 8], (idx % 8) * 1024 + off, n);
            }
        } else if addr <= 0x3EFF {
            let v = mirror_nametable_addr(addr, self.mirroring) as usize;
            let n = if size < VRAM_SIZE - v { size } else { VRAM_SIZE - v };
            copy_vec_to_front(dest, &self.vram, v, n);
        }
    }
}

} // verus!
