//! Jaleco JF-17 (mapper 72) and JF-19 (mapper 92): one latch whose bit 7
//! and bit 6 rising edges load a 16KB PRG bank and an 8KB CHR bank.

use vstd::prelude::*;
use crate::bus::{NametableMirror, LOW_SPACE_SIZE, VRAM_SIZE, PALETTE_SIZE, RESET_TARGET_ADDR, spec_mirror_addr, mirror_addr, spec_addr_to_page, addr_to_page, spec_mirroring_from_flags, mirroring_from_flags, low_after_write, low_write, word, make_word};
use crate::ppu_bus::{PpuBus, PpuView, zeroed};
use crate::controller::Controller;
use crate::mapper::common::new_controllers;

use crate::savestate::{SavestateWriter, SavestateReader, StateError, enc_u8, enc_bool, stored_at, lemma_add_assoc, lemma_stored_split, lemma_stored_u8, lemma_stored_bool};
use crate::controller::{controllers_bytes, controller_at, save_controllers, take_controllers, lemma_stored_controllers, CONTROLLER_STATE_LEN};
use crate::ppu_bus::{bank_matches, mirror_code, mirror_from_code, mirroring_from_code, save_mirroring, lemma_mirror_code_roundtrip};

verus! {

pub const PRG_16K: usize = 16 * 1024;
pub const CHR_8K: usize = 8 * 1024;

pub struct JalecoJfMapper {
    pub ram: Vec<u8>,
    pub is_jf19: bool,
    pub prg_banks_16k: Vec<[u8; PRG_16K]>,
    pub chr_banks_8k: Vec<[u8; CHR_8K]>,
    pub selected_prg: usize,
    pub selected_chr: usize,
    /// Banks shown at $8000 and $C000.
    pub prg_lo: usize,
    pub prg_hi: usize,
    pub prev_write: u8,
    pub ppu: PpuBus,
    pub controllers: [Controller; 2],
}

impl JalecoJfMapper {
    pub open spec fn wf(&self) -> bool {
        &&& self.ram@.len() == LOW_SPACE_SIZE
        &&& self.prg_banks_16k@.len() > 0
        &&& self.prg_lo < self.prg_banks_16k@.len()
        &&& self.prg_hi < self.prg_banks_16k@.len()
        &&& self.is_jf19 ==> self.prg_hi == self.selected_prg
        &&& !self.is_jf19 ==> self.prg_lo == self.selected_prg
        &&& self.ppu.wf()
        &&& self.chr_banks_8k@.len() > 0 ==> self.selected_chr < self.chr_banks_8k@.len()
            && !self.ppu.chr_is_ram && self.ppu.chr@ == self.chr_banks_8k@[self.selected_chr as int]@
    }

    pub open spec fn spec_cpu_read(&self, addr: u16) -> u8 {
        let a = spec_mirror_addr(addr);
        if a < 0x8000 {
            self.ram@[a as int]
        } else if a < 0xC000 {
            self.prg_banks_16k@[self.prg_lo as int][a - 0x8000]
        } else {
            self.prg_banks_16k@[self.prg_hi as int][a - 0xC000]
        }
    }

    /// JF-17 fixes the last bank at $C000; JF-19 powers on with bank 0 in both
    /// halves and switches the upper one.
    pub fn new(flags: u8, prg_banks_16k: Vec<[u8; PRG_16K]>, chr_banks_8k: Vec<[u8; CHR_8K]>, is_jf19: bool) -> (m: JalecoJfMapper)
        requires
            prg_banks_16k@.len() > 0,
        ensures
            m.wf(),
            m.prg_banks_16k@ == prg_banks_16k@,
            m.chr_banks_8k@ == chr_banks_8k@,
            m.is_jf19 == is_jf19,
            m.prg_lo == 0,
            m.prg_hi == (if is_jf19 { 0 } else { prg_banks_16k@.len() - 1 }),
            m.selected_prg == 0 && m.selected_chr == 0 && m.prev_write == 0,
            m.ram@ == Seq::new(LOW_SPACE_SIZE as nat, |i: int| 0u8),
            m.ppu.mirroring == spec_mirroring_from_flags(flags),
            chr_banks_8k@.len() == 0 ==> m.ppu@ == (PpuView {
                chr: Seq::new(CHR_8K as nat, |i: int| 0u8),
                chr_is_ram: true,
                vram: Seq::new(VRAM_SIZE as nat, |i: int| 0u8),
                palette: Seq::new(PALETTE_SIZE as nat, |i: int| 0u8),
                mirroring: spec_mirroring_from_flags(flags),
            }),
            chr_banks_8k@.len() > 0 ==> !m.ppu.chr_is_ram,
    {
        let hi = if is_jf19 { 0 } else { prg_banks_16k.len() - 1 };
        let mirroring = mirroring_from_flags(flags);
        let ppu = if chr_banks_8k.len() == 0 {
            PpuBus::new_ram(CHR_8K, mirroring)
        } else {
            PpuBus::new_rom(&chr_banks_8k[0], mirroring)
        };
        JalecoJfMapper {
            ram: zeroed(LOW_SPACE_SIZE),
            is_jf19,
            prg_banks_16k,
            chr_banks_8k,
            selected_prg: 0,
            selected_chr: 0,
            prg_lo: 0,
            prg_hi: hi,
            prev_write: 0,
            ppu,
            controllers: new_controllers(),
        }
    }

    pub fn cpu_read(&self, addr: u16) -> (r: u8)
        requires
            self.wf(),
        ensures
            r == self.spec_cpu_read(addr),
    {
        let a = mirror_addr(addr);
        if a < 0x8000 {
            self.ram[a as usize]
        } else if a < 0xC000 {
            self.prg_banks_16k[self.prg_lo][(a - 0x8000) as usize]
        } else {
            self.prg_banks_16k[self.prg_hi][(a - 0xC000) as usize]
        }
    }

    pub fn cpu_peek(&self, addr: u16) -> (r: u8)
        requires
            self.wf(),
        ensures
            r == self.spec_cpu_read(addr),
    {
        self.cpu_read(addr)
    }

    fn switch_prg(&mut self, bank: usize)
        requires
            old(self).wf(),
        ensures
            final(self).wf(),
            final(self).selected_prg as int == bank as int % old(self).prg_banks_16k@.len() as int,
            old(self).is_jf19 ==> final(self).prg_hi == final(self).selected_prg && final(self).prg_lo == old(self).prg_lo,
            !old(self).is_jf19 ==> final(self).prg_lo == final(self).selected_prg && final(self).prg_hi == old(self).prg_hi,
            final(self).ram == old(self).ram,
            final(self).is_jf19 == old(self).is_jf19,
            final(self).prg_banks_16k == old(self).prg_banks_16k,
            final(self).chr_banks_8k == old(self).chr_banks_8k,
            final(self).selected_chr == old(self).selected_chr,
            final(self).prev_write == old(self).prev_write,
            final(self).ppu == old(self).ppu,
            final(self).controllers == old(self).controllers,
    {
        let index = bank % self.prg_banks_16k.len();
        self.selected_prg = index;
        if self.is_jf19 {
            self.prg_hi = index;
        } else {
            self.prg_lo = index;
        }
    }

    fn switch_chr(&mut self, bank: usize)
        requires
            old(self).wf(),
        ensures
            final(self).wf(),
            old(self).chr_banks_8k@.len() > 0 ==> final(self).selected_chr as int == bank as int
                % old(self).chr_banks_8k@.len() as int,
            old(self).chr_banks_8k@.len() == 0 ==> final(self).selected_chr == old(self).selected_chr
                && final(self).ppu.chr == old(self).ppu.chr,
            final(self).ppu.vram == old(self).ppu.vram,
            final(self).ppu.palette == old(self).ppu.palette,
            final(self).ppu.mirroring == old(self).ppu.mirroring,
            final(self).ppu.chr_is_ram == old(self).ppu.chr_is_ram,
            final(self).ram == old(self).ram,
            final(self).is_jf19 == old(self).is_jf19,
            final(self).prg_banks_16k == old(self).prg_banks_16k,
            final(self).chr_banks_8k == old(self).chr_banks_8k,
            final(self).selected_prg == old(self).selected_prg,
            final(self).prg_lo == old(self).prg_lo,
            final(self).prg_hi == old(self).prg_hi,
            final(self).prev_write == old(self).prev_write,
            final(self).controllers == old(self).controllers,
    {
        if self.chr_banks_8k.len() == 0 {
            return;
        }
        let index = bank % self.chr_banks_8k.len();
        if index != self.selected_chr {
            self.selected_chr = index;
            self.ppu.switch_chr_bank(&self.chr_banks_8k, index);
        }
    }

    /// Writes to $8000-$FFFF (ANDed with the ROM byte there): a 0-to-1 edge
    /// of bit 7 loads the PRG bank (3 bits, 4 on JF-19), of bit 6 the CHR
    /// bank (4 bits).
    pub fn cpu_write(&mut self, addr: u16, value: u8)
        requires
            old(self).wf(),
        ensures
            final(self).wf(),
            final(self).is_jf19 == old(self).is_jf19,
            final(self).prg_banks_16k == old(self).prg_banks_16k,
            final(self).chr_banks_8k == old(self).chr_banks_8k,
            final(self).controllers == old(self).controllers,
            final(self).ppu.vram == old(self).ppu.vram,
            final(self).ppu.palette == old(self).ppu.palette,
            final(self).ppu.mirroring == old(self).ppu.mirroring,
            spec_mirror_addr(addr) < 0x8000 ==> final(self).ram@ == low_after_write(
                old(self).ram@,
                spec_mirror_addr(addr),
                value,
            ) && final(self).prg_lo == old(self).prg_lo && final(self).prg_hi == old(self).prg_hi
                && final(self).selected_chr == old(self).selected_chr
                && final(self).prev_write == old(self).prev_write,
            spec_mirror_addr(addr) >= 0x8000 ==> ({
                let v = value & old(self).spec_cpu_read(addr);
                let prg_edge = v & 0x80 != 0 && old(self).prev_write & 0x80 == 0;
                let chr_edge = v & 0x40 != 0 && old(self).prev_write & 0x40 == 0;
                let mask: u8 = if old(self).is_jf19 { 0x0F } else { 0x07 };
                let new_prg = (v & mask) as int % old(self).prg_banks_16k@.len() as int;
                &&& final(self).ram == old(self).ram
                &&& final(self).prev_write == v
                &&& prg_edge && old(self).is_jf19 ==> final(self).prg_hi as int == new_prg
                    && final(self).prg_lo == old(self).prg_lo
                &&& prg_edge && !old(self).is_jf19 ==> final(self).prg_lo as int == new_prg
                    && final(self).prg_hi == old(self).prg_hi
                &&& !prg_edge ==> final(self).prg_lo == old(self).prg_lo && final(self).prg_hi
                    == old(self).prg_hi
                &&& chr_edge && old(self).chr_banks_8k@.len() > 0 ==> final(self).selected_chr as int
                    == (v & 0x0F) as int % old(self).chr_banks_8k@.len() as int
                &&& !chr_edge ==> final(self).selected_chr == old(self).selected_chr
            }),
    {
        let a = mirror_addr(addr);
        if a < 0x8000 {
            low_write(&mut self.ram, a, value);
        } else {
            let v = value & self.cpu_read(a);
            if v & 0x80 != 0 && self.prev_write & 0x80 == 0 {
                let mask: u8 = if self.is_jf19 { 0x0F } else { 0x07 };
                self.switch_prg((v & mask) as usize);
            }
            if v & 0x40 != 0 && self.prev_write & 0x40 == 0 {
                self.switch_chr((v & 0x0F) as usize);
            }
            self.prev_write = v;
        }
    }

    pub fn ppu_read(&self, addr: u16) -> (r: u8)
        requires
            self.wf(),
        ensures
            r == self.ppu@.read(addr),
    {
        self.ppu.read(addr)
    }

    pub fn ppu_write(&mut self, addr: u16, value: u8)
        requires
            old(self).wf(),
        ensures
            final(self).wf(),
            final(self).ppu@ == old(self).ppu@.write(addr, value),
            final(self).ram == old(self).ram,
            final(self).prg_banks_16k == old(self).prg_banks_16k,
            final(self).chr_banks_8k == old(self).chr_banks_8k,
            final(self).prg_lo == old(self).prg_lo,
            final(self).prg_hi == old(self).prg_hi,
            final(self).selected_chr == old(self).selected_chr,
            final(self).prev_write == old(self).prev_write,
    {
        self.ppu.write(addr, value);
    }

    pub fn code_start(&self) -> (r: u16)
        requires
            self.wf(),
        ensures
            r == word(self.spec_cpu_read(RESET_TARGET_ADDR), self.spec_cpu_read(0xFFFD)),
    {
        make_word(self.cpu_read(RESET_TARGET_ADDR), self.cpu_read(RESET_TARGET_ADDR + 1))
    }

    pub fn poll_irq(&self) -> (r: bool)
        ensures
            !r,
    {
        false
    }

    pub fn mapper_id(&self) -> (r: u8)
        ensures
            r == (if self.is_jf19 { 92u8 } else { 72u8 }),
    {
        if self.is_jf19 {
            92
        } else {
            72
        }
    }
}

impl JalecoJfMapper {
    /// The bytes `save_state` appends.
    pub open spec fn state_bytes(&self) -> Seq<u8> {
        self.ram@
            + self.ppu.chr@
            + self.ppu.vram@
            + self.ppu.palette@
            + enc_bool(self.ppu.chr_is_ram)
            + enc_u8(mirror_code(self.ppu.mirroring))
            + enc_u8(self.selected_prg as u8)
            + enc_u8(self.selected_chr as u8)
            + enc_u8(self.prev_write)
            + enc_u8(mirror_code(self.ppu.mirroring))
            + controllers_bytes(self.controllers)
    }

    /// Length of the saved state.
    pub open spec fn state_len(&self) -> nat {
        (LOW_SPACE_SIZE + self.ppu.chr@.len() + VRAM_SIZE + PALETTE_SIZE + 2 * CONTROLLER_STATE_LEN + 6) as nat
    }

    /// Every register that the state stores in fewer bits than it is held in
    /// fits in those bits.
    pub open spec fn fits(&self) -> bool {
        &&& self.selected_prg < 256
        &&& self.selected_chr < 256
    }

    /// The stored bytes at `p` hold a state that this cartridge can take.
    pub open spec fn state_valid(&self, d: Seq<u8>, p: int) -> bool {
        &&& mirror_from_code(d[(p + LOW_SPACE_SIZE + self.ppu.chr@.len() + VRAM_SIZE + PALETTE_SIZE + 1)]) is Some
        &&& (d[(p + LOW_SPACE_SIZE + self.ppu.chr@.len() + VRAM_SIZE + PALETTE_SIZE + 2)] as usize) < self.prg_banks_16k@.len()
        &&& (self.chr_banks_8k@.len() > 0 ==> (d[(p + LOW_SPACE_SIZE + self.ppu.chr@.len() + VRAM_SIZE + PALETTE_SIZE + 3)] as usize) < self.chr_banks_8k@.len())
        &&& mirror_from_code(d[(p + LOW_SPACE_SIZE + self.ppu.chr@.len() + VRAM_SIZE + PALETTE_SIZE + 5)]) is Some
        &&& self.chr_banks_8k@.len() > 0 ==> !((d[(p + LOW_SPACE_SIZE + self.ppu.chr@.len() + VRAM_SIZE + PALETTE_SIZE)] != 0)) && (d.subrange((p + LOW_SPACE_SIZE), (p + LOW_SPACE_SIZE) + self.ppu.chr@.len())) == self.chr_banks_8k@[(d[(p + LOW_SPACE_SIZE + self.ppu.chr@.len() + VRAM_SIZE + PALETTE_SIZE + 3)] as usize) as int]@
    }

    /// What `load_state` answers for the bytes at `p`.
    pub open spec fn load_outcome(&self, d: Seq<u8>, p: int) -> Result<(), StateError> {
        if p + self.state_len() > d.len() {
            Err(StateError::UnexpectedEof)
        } else if !self.state_valid(d, p) {
            Err(StateError::InvalidValue)
        } else {
            Ok(())
        }
    }

    /// Every saved field holds what the bytes at `p` store.
    pub open spec fn loaded_from(&self, d: Seq<u8>, p: int) -> bool {
        &&& self.ram@ == d.subrange(p, p + LOW_SPACE_SIZE)
        &&& self.ppu.chr@ == d.subrange((p + LOW_SPACE_SIZE), (p + LOW_SPACE_SIZE) + self.ppu.chr@.len())
        &&& self.ppu.vram@ == d.subrange((p + LOW_SPACE_SIZE + self.ppu.chr@.len()), (p + LOW_SPACE_SIZE + self.ppu.chr@.len()) + VRAM_SIZE)
        &&& self.ppu.palette@ == d.subrange((p + LOW_SPACE_SIZE + self.ppu.chr@.len() + VRAM_SIZE), (p + LOW_SPACE_SIZE + self.ppu.chr@.len() + VRAM_SIZE) + PALETTE_SIZE)
        &&& self.ppu.chr_is_ram == (d[(p + LOW_SPACE_SIZE + self.ppu.chr@.len() + VRAM_SIZE + PALETTE_SIZE)] != 0)
        &&& self.selected_prg == d[(p + LOW_SPACE_SIZE + self.ppu.chr@.len() + VRAM_SIZE + PALETTE_SIZE + 2)] as usize
        &&& self.selected_chr == d[(p + LOW_SPACE_SIZE + self.ppu.chr@.len() + VRAM_SIZE + PALETTE_SIZE + 3)] as usize
        &&& self.prev_write == d[(p + LOW_SPACE_SIZE + self.ppu.chr@.len() + VRAM_SIZE + PALETTE_SIZE + 4)]
        &&& self.ppu.mirroring == mirror_from_code(d[(p + LOW_SPACE_SIZE + self.ppu.chr@.len() + VRAM_SIZE + PALETTE_SIZE + 5)])->0
        &&& self.controllers@[0] == controller_at(d, (p + LOW_SPACE_SIZE + self.ppu.chr@.len() + VRAM_SIZE + PALETTE_SIZE + 6))
        &&& self.controllers@[1] == controller_at(d, (p + LOW_SPACE_SIZE + self.ppu.chr@.len() + VRAM_SIZE + PALETTE_SIZE + 6) + CONTROLLER_STATE_LEN)
        &&& self.is_jf19 ==> self.prg_hi == self.selected_prg
        &&& !self.is_jf19 ==> self.prg_lo == self.selected_prg
    }

    /// The two agree on every saved field.
    pub open spec fn same_state(&self, other: &Self) -> bool {
        &&& self.ram@ == other.ram@
        &&& self.ppu.chr@ == other.ppu.chr@
        &&& self.ppu.vram@ == other.ppu.vram@
        &&& self.ppu.palette@ == other.ppu.palette@
        &&& self.ppu.chr_is_ram == other.ppu.chr_is_ram
        &&& self.selected_prg == other.selected_prg
        &&& self.selected_chr == other.selected_chr
        &&& self.prev_write == other.prev_write
        &&& self.ppu.mirroring == other.ppu.mirroring
        &&& self.controllers@ == other.controllers@
        &&& self.prg_lo == other.prg_lo
        &&& self.prg_hi == other.prg_hi
    }

    /// The two agree on every field that the state does not store.
    pub open spec fn keeps_unsaved(&self, other: &Self) -> bool {
        &&& self.is_jf19 == other.is_jf19
        &&& self.prg_banks_16k == other.prg_banks_16k
        &&& self.chr_banks_8k == other.chr_banks_8k
        &&& self.is_jf19 ==> self.prg_lo == other.prg_lo
        &&& !self.is_jf19 ==> self.prg_hi == other.prg_hi
    }

    /// The two come from cartridges of the same shape.
    pub open spec fn same_layout(&self, other: &Self) -> bool {
        &&& self.is_jf19 == other.is_jf19
        &&& self.prg_banks_16k@.len() == other.prg_banks_16k@.len()
        &&& self.chr_banks_8k@ == other.chr_banks_8k@
        &&& self.ppu.chr@.len() == other.ppu.chr@.len()
        &&& self.is_jf19 ==> self.prg_lo == other.prg_lo
        &&& !self.is_jf19 ==> self.prg_hi == other.prg_hi
    }

    #[verifier::spinoff_prover]
    pub fn save_state(&self, w: &mut SavestateWriter)
        ensures
            final(w).buf@ == old(w).buf@ + self.state_bytes(),
    {
        let ghost b = w.buf@;
        let ghost s0 = self.ram@;
        let ghost s1 = s0 + self.ppu.chr@;
        let ghost s2 = s1 + self.ppu.vram@;
        let ghost s3 = s2 + self.ppu.palette@;
        let ghost s4 = s3 + enc_bool(self.ppu.chr_is_ram);
        let ghost s5 = s4 + enc_u8(mirror_code(self.ppu.mirroring));
        let ghost s6 = s5 + enc_u8(self.selected_prg as u8);
        let ghost s7 = s6 + enc_u8(self.selected_chr as u8);
        let ghost s8 = s7 + enc_u8(self.prev_write);
        let ghost s9 = s8 + enc_u8(mirror_code(self.ppu.mirroring));
        let ghost s10 = s9 + controllers_bytes(self.controllers);
        w.write_bytes(self.ram.as_slice());
        w.write_bytes(self.ppu.chr.as_slice());
        proof {
            lemma_add_assoc(b, s0, self.ppu.chr@);
        }
        w.write_bytes(self.ppu.vram.as_slice());
        proof {
            lemma_add_assoc(b, s1, self.ppu.vram@);
        }
        w.write_bytes(self.ppu.palette.as_slice());
        proof {
            lemma_add_assoc(b, s2, self.ppu.palette@);
        }
        w.write_bool(self.ppu.chr_is_ram);
        proof {
            lemma_add_assoc(b, s3, enc_bool(self.ppu.chr_is_ram));
        }
        save_mirroring(w, self.ppu.mirroring);
        proof {
            lemma_add_assoc(b, s4, enc_u8(mirror_code(self.ppu.mirroring)));
        }
        w.write_u8(self.selected_prg as u8);
        proof {
            lemma_add_assoc(b, s5, enc_u8(self.selected_prg as u8));
        }
        w.write_u8(self.selected_chr as u8);
        proof {
            lemma_add_assoc(b, s6, enc_u8(self.selected_chr as u8));
        }
        w.write_u8(self.prev_write);
        proof {
            lemma_add_assoc(b, s7, enc_u8(self.prev_write));
        }
        save_mirroring(w, self.ppu.mirroring);
        proof {
            lemma_add_assoc(b, s8, enc_u8(mirror_code(self.ppu.mirroring)));
        }
        save_controllers(w, &self.controllers);
        proof {
            lemma_add_assoc(b, s9, controllers_bytes(self.controllers));
        }
    }

    /// Restores a state written by `save_state`. Nothing changes unless the
    /// whole state is there and holds values this cartridge can take.
    #[verifier::spinoff_prover]
    pub fn load_state(&mut self, r: &mut SavestateReader) -> (res: Result<(), StateError>)
        requires
            old(self).wf(),
            old(r).wf(),
        ensures
            final(r).wf(),
            final(r).data@ == old(r).data@,
            res == old(self).load_outcome(old(r).data@, old(r).pos as int),
            res is Err ==> *final(self) == *old(self) && final(r).pos == old(r).pos,
            res is Ok ==> final(self).wf() && final(self).loaded_from(old(r).data@, old(r).pos as int)
                && final(self).keeps_unsaved(&*old(self)) && final(self).same_layout(&*old(self))
                && final(r).pos == old(r).pos + old(self).state_len(),
    {
        let ghost d = r.data@;
        let ghost p = r.pos as int;
        let start = r.pos;
        let rem = r.remaining_len();
        if rem < self.ppu.chr.len() || rem - self.ppu.chr.len() < LOW_SPACE_SIZE + VRAM_SIZE + PALETTE_SIZE + 2 * CONTROLLER_STATE_LEN + 6 {
            return Err(StateError::UnexpectedEof);
        }
        let ram = r.take_bytes(LOW_SPACE_SIZE);
        let ppu_chr = r.take_bytes(self.ppu.chr.len());
        let ppu_vram = r.take_bytes(VRAM_SIZE);
        let ppu_palette = r.take_bytes(PALETTE_SIZE);
        let ppu_chr_is_ram = r.take_bool();
        let ppu_mirroring_saved_code = r.take_u8();
        let selected_prg = r.take_u8() as usize;
        let selected_chr = r.take_u8() as usize;
        let prev_write = r.take_u8();
        let ppu_mirroring_code = r.take_u8();
        let controllers = take_controllers(r);
        if mirroring_from_code(ppu_mirroring_saved_code).is_none() {
            r.rewind(start);
            return Err(StateError::InvalidValue);
        }
        let ppu_mirroring = match mirroring_from_code(ppu_mirroring_code) {
            Some(m) => m,
            None => {
                r.rewind(start);
                return Err(StateError::InvalidValue);
            },
        };
        if (selected_prg >= self.prg_banks_16k.len())
            || (self.chr_banks_8k.len() > 0 && selected_chr >= self.chr_banks_8k.len())
            || (self.chr_banks_8k.len() > 0 && (ppu_chr_is_ram || !bank_matches(&ppu_chr, &self.chr_banks_8k[selected_chr]))) {
            r.rewind(start);
            return Err(StateError::InvalidValue);
        }
        self.ram = ram;
        self.ppu.chr = ppu_chr;
        self.ppu.vram = ppu_vram;
        self.ppu.palette = ppu_palette;
        self.ppu.chr_is_ram = ppu_chr_is_ram;
        self.selected_prg = selected_prg;
        self.selected_chr = selected_chr;
        self.prev_write = prev_write;
        self.ppu.mirroring = ppu_mirroring;
        self.controllers = controllers;
        if self.is_jf19 {
            self.prg_hi = selected_prg;
        } else {
            self.prg_lo = selected_prg;
        }
        Ok(())
    }

    /// Saving a state and loading it into a cartridge of the same shape
    /// succeeds and restores every saved field.
    #[verifier::spinoff_prover]
    pub proof fn lemma_state_roundtrip(o: Self, m: Self, n: Self, d: Seq<u8>, p: int)
        requires
            o.wf(),
            m.wf(),
            m.fits(),
            o.same_layout(&m),
            n.same_layout(&m),
            stored_at(d, p, m.state_bytes()),
        ensures
            o.load_outcome(d, p) == Ok::<(), StateError>(()),
            n.loaded_from(d, p) ==> n.same_state(&m),
    {
        let s0 = m.ram@;
        let s1 = s0 + m.ppu.chr@;
        let s2 = s1 + m.ppu.vram@;
        let s3 = s2 + m.ppu.palette@;
        let s4 = s3 + enc_bool(m.ppu.chr_is_ram);
        let s5 = s4 + enc_u8(mirror_code(m.ppu.mirroring));
        let s6 = s5 + enc_u8(m.selected_prg as u8);
        let s7 = s6 + enc_u8(m.selected_chr as u8);
        let s8 = s7 + enc_u8(m.prev_write);
        let s9 = s8 + enc_u8(mirror_code(m.ppu.mirroring));
        let s10 = s9 + controllers_bytes(m.controllers);
        lemma_stored_split(d, p, s9, controllers_bytes(m.controllers));
        lemma_stored_split(d, p, s8, enc_u8(mirror_code(m.ppu.mirroring)));
        lemma_stored_split(d, p, s7, enc_u8(m.prev_write));
        lemma_stored_split(d, p, s6, enc_u8(m.selected_chr as u8));
        lemma_stored_split(d, p, s5, enc_u8(m.selected_prg as u8));
        lemma_stored_split(d, p, s4, enc_u8(mirror_code(m.ppu.mirroring)));
        lemma_stored_split(d, p, s3, enc_bool(m.ppu.chr_is_ram));
        lemma_stored_split(d, p, s2, m.ppu.palette@);
        lemma_stored_split(d, p, s1, m.ppu.vram@);
        lemma_stored_split(d, p, s0, m.ppu.chr@);
        lemma_stored_bool(d, (p + LOW_SPACE_SIZE + m.ppu.chr@.len() + VRAM_SIZE + PALETTE_SIZE), m.ppu.chr_is_ram);
        lemma_stored_u8(d, (p + LOW_SPACE_SIZE + m.ppu.chr@.len() + VRAM_SIZE + PALETTE_SIZE + 1), mirror_code(m.ppu.mirroring));
        lemma_mirror_code_roundtrip(m.ppu.mirroring);
        lemma_stored_u8(d, (p + LOW_SPACE_SIZE + m.ppu.chr@.len() + VRAM_SIZE + PALETTE_SIZE + 2), m.selected_prg as u8);
        lemma_stored_u8(d, (p + LOW_SPACE_SIZE + m.ppu.chr@.len() + VRAM_SIZE + PALETTE_SIZE + 3), m.selected_chr as u8);
        lemma_stored_u8(d, (p + LOW_SPACE_SIZE + m.ppu.chr@.len() + VRAM_SIZE + PALETTE_SIZE + 4), m.prev_write);
        lemma_stored_u8(d, (p + LOW_SPACE_SIZE + m.ppu.chr@.len() + VRAM_SIZE + PALETTE_SIZE + 5), mirror_code(m.ppu.mirroring));
        lemma_mirror_code_roundtrip(m.ppu.mirroring);
        lemma_stored_controllers(d, (p + LOW_SPACE_SIZE + m.ppu.chr@.len() + VRAM_SIZE + PALETTE_SIZE + 6), m.controllers);
        if n.loaded_from(d, p) {
            assert(n.controllers@ =~= m.controllers@);
        }
    }
}

} // verus!
