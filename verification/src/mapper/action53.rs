//! Action 53 (mapper 28): a multicart board whose outer and inner bank
//! registers combine into 16KB PRG banks under four banking modes and four
//! outer window sizes, plus 32KB of CHR RAM in four 8KB banks.

use vstd::prelude::*;
use crate::bus::{NametableMirror, LOW_SPACE_SIZE, VRAM_SIZE, PALETTE_SIZE, RESET_TARGET_ADDR, spec_mirror_addr, mirror_addr, spec_addr_to_page, addr_to_page, spec_mirroring_from_flags, mirroring_from_flags, low_after_write, low_write, word, make_word, nt_offset, mirror_nametable_addr};
use crate::ppu_bus::{PpuBus, PpuView, zeroed};
use crate::controller::Controller;
use crate::mapper::common::{new_controllers, copied_into, copy_vec_to_front};

use crate::savestate::{SavestateWriter, SavestateReader, StateError, enc_u8, enc_bool, stored_at, lemma_add_assoc, lemma_stored_split, lemma_stored_u8, lemma_stored_bool};
use crate::controller::{controllers_bytes, controller_at, save_controllers, take_controllers, lemma_stored_controllers, CONTROLLER_STATE_LEN};
use crate::ppu_bus::{mirror_code, mirror_from_code, mirroring_from_code, save_mirroring, lemma_mirror_code_roundtrip};

verus! {

pub const PRG_16K: usize = 16 * 1024;
pub const CHR_BANK_SIZE: usize = 8 * 1024;
pub const CHR_TOTAL: usize = 32 * 1024;

pub struct Action53Mapper {
    pub ram: Vec<u8>,
    pub prg_banks_16k: Vec<[u8; PRG_16K]>,
    pub chr_ram: Vec<u8>,
    pub reg_select: u8,
    pub reg_chr: u8,
    pub reg_inner: u8,
    pub reg_mode: u8,
    pub reg_outer: u8,
    pub ppu: PpuBus,
    pub controllers: [Controller; 2],
}

/// The 16KB bank shown at $8000 (`a14 == 0`) or $C000 (`a14 == 1`), following
/// the board's reference implementation.
pub open spec fn spec_prg_bank(outer: u8, inner: u8, mode: u8, a14: usize, n: nat) -> int {
    let outer_bank = (outer as usize) << 1usize;
    let mode0 = (mode >> 2u8) as usize;
    let bank_mode = if (mode0 ^ a14) & 3 == 2 { 0usize } else { mode0 };
    let cur = (inner & 0x0F) as usize;
    let current = if bank_mode & 2 == 0 { (cur << 1usize) | a14 } else { cur };
    let size_index = (bank_mode >> 2usize) & 3;
    let mask = ((2usize << size_index) - 1) as usize;
    ((current & mask) | (outer_bank & !mask)) as int % n as int
}

impl Action53Mapper {
    pub open spec fn wf(&self) -> bool {
        &&& self.ram@.len() == LOW_SPACE_SIZE
        &&& self.prg_banks_16k@.len() > 0
        &&& self.chr_ram@.len() == CHR_TOTAL
        &&& self.ppu.wf()
    }

    pub open spec fn bank_at(&self, a14: usize) -> int {
        spec_prg_bank(self.reg_outer, self.reg_inner, self.reg_mode, a14, self.prg_banks_16k@.len())
    }

    pub open spec fn spec_cpu_read(&self, addr: u16) -> u8 {
        let a = spec_mirror_addr(addr);
        if a < 0x8000 {
            self.ram@[a as int]
        } else if a < 0xC000 {
            self.prg_banks_16k@[self.bank_at(0)][a - 0x8000]
        } else {
            self.prg_banks_16k@[self.bank_at(1)][a - 0xC000]
        }
    }

    /// Offset into CHR RAM of a pattern-table address.
    pub open spec fn spec_chr_offset(&self, a: int) -> int {
        ((self.reg_chr & 0x03) as int) * 0x2000 + a
    }

    pub open spec fn spec_ppu_read(&self, addr: u16) -> u8 {
        let a = (addr as int) % 0x4000;
        if a < 0x2000 {
            self.chr_ram@[self.spec_chr_offset(a)]
        } else {
            self.ppu@.read(a as u16)
        }
    }

    /// The mirroring the mode and bank registers select.
    pub open spec fn spec_mirroring(mode: u8, chr: u8, inner: u8) -> NametableMirror {
        let m = mode & 3;
        if m == 0 {
            if chr & 0x10 != 0 { NametableMirror::Higher } else { NametableMirror::Lower }
        } else if m == 1 {
            if inner & 0x10 != 0 { NametableMirror::Higher } else { NametableMirror::Lower }
        } else if m == 2 {
            NametableMirror::Vertical
        } else {
            NametableMirror::Horizontal
        }
    }

    /// What `new` builds from its arguments.
    pub open spec fn built_by_new(flags: u8, prg_banks: Vec<[u8; PRG_16K]>, m: Action53Mapper) -> bool {
        &&& (m.wf())
        &&& (m.prg_banks_16k@ == prg_banks@)
        &&& (m.reg_select == 0 && m.reg_chr == 0 && m.reg_inner == 0)
        &&& (m.reg_mode == 0x0C)
        &&& (m.reg_outer as int == (if prg_banks@.len() / 2 >= 1 { prg_banks@.len() / 2 - 1 } else { 0 }) as u8)
        &&& (m.chr_ram@ == Seq::new(CHR_TOTAL as nat, |i: int| 0u8))
        &&& (m.ram@ == Seq::new(LOW_SPACE_SIZE as nat, |i: int| 0u8))
        &&& (m.ppu@ == (PpuView {
                chr: Seq::new(CHR_BANK_SIZE as nat, |i: int| 0u8),
                chr_is_ram: true,
                vram: Seq::new(VRAM_SIZE as nat, |i: int| 0u8),
                palette: Seq::new(PALETTE_SIZE as nat, |i: int| 0u8),
                mirroring: spec_mirroring_from_flags(flags),
            }))
    }

    /// Powers on in UNROM mode with the outer bank on the last 32KB, so the
    /// reset vector comes from the last bank.
    pub fn new(flags: u8, prg_banks: Vec<[u8; PRG_16K]>) -> (m: Action53Mapper)
        requires
            prg_banks@.len() > 0,
        ensures
            m.wf(),
            m.prg_banks_16k@ == prg_banks@,
            m.reg_select == 0 && m.reg_chr == 0 && m.reg_inner == 0,
            m.reg_mode == 0x0C,
            m.reg_outer as int == (if prg_banks@.len() / 2 >= 1 { prg_banks@.len() / 2 - 1 } else { 0 }) as u8,
            m.chr_ram@ == Seq::new(CHR_TOTAL as nat, |i: int| 0u8),
            m.ram@ == Seq::new(LOW_SPACE_SIZE as nat, |i: int| 0u8),
            m.ppu@ == (PpuView {
                chr: Seq::new(CHR_BANK_SIZE as nat, |i: int| 0u8),
                chr_is_ram: true,
                vram: Seq::new(VRAM_SIZE as nat, |i: int| 0u8),
                palette: Seq::new(PALETTE_SIZE as nat, |i: int| 0u8),
                mirroring: spec_mirroring_from_flags(flags),
            }),
            Self::built_by_new(flags, prg_banks, m),
    {
        let half = prg_banks.len() / 2;
        let outer = if half >= 1 { half - 1 } else { 0 };
        Action53Mapper {
            ram: zeroed(LOW_SPACE_SIZE),
            prg_banks_16k: prg_banks,
            chr_ram: zeroed(CHR_TOTAL),
            reg_select: 0,
            reg_chr: 0,
            reg_inner: 0,
            reg_mode: 0x0C,
            reg_outer: outer as u8,
            ppu: PpuBus::new_ram(CHR_BANK_SIZE, mirroring_from_flags(flags)),
            controllers: new_controllers(),
        }
    }

    /// The 16KB bank for the half of $8000-$FFFF that CPU line A14 selects.
    pub fn calc_prg_bank(&self, cpu_a14: usize) -> (bank: usize)
        requires
            self.wf(),
            cpu_a14 <= 1,
        ensures
            bank as int == self.bank_at(cpu_a14),
            bank < self.prg_banks_16k@.len(),
    {
        let outer_bank = (self.reg_outer as usize) << 1;
        let inn = self.reg_inner;
        let ci = inn & 0x0F;
        assert(ci <= 15) by (bit_vector)
            requires ci == inn & 0x0Fu8;
        let mut current_bank = ci as usize;
        let mut bank_mode = (self.reg_mode >> 2) as usize;
        if (bank_mode ^ cpu_a14) & 0x03 == 0x02 {
            bank_mode = 0;
        }
        if (bank_mode & 0x02) == 0 {
            let c = current_bank;
            assert((c << 1usize) | cpu_a14 <= 31) by (bit_vector)
                requires c <= 15, cpu_a14 <= 1;
            current_bank = (current_bank << 1) | cpu_a14;
        }
        let size_index = (bank_mode >> 2) & 3;
        assert(size_index <= 3) by (bit_vector)
            requires size_index == (bank_mode >> 2usize) & 3usize;
        assert((2usize << size_index) >= 2) by (bit_vector)
            requires size_index <= 3;
        let bank_size_mask = (2usize << size_index) - 1;
        ((current_bank & bank_size_mask) | (outer_bank & !bank_size_mask)) % self.prg_banks_16k.len()
    }

    pub fn cpu_read(&self, addr: u16) -> (r: u8)
        requires
            self.wf(),
        ensures
            r == self.spec_cpu_read(addr),
    {
        let a = mirror_addr(addr);
        if a < 0x8000 {
            self.ram[a as usize]
        } else if a < 0xC000 {
            let b = self.calc_prg_bank(0);
            self.prg_banks_16k[b][(a - 0x8000) as usize]
        } else {
            let b = self.calc_prg_bank(1);
            self.prg_banks_16k[b][(a - 0xC000) as usize]
        }
    }

    fn sync_mirroring(&mut self)
        requires
            old(self).wf(),
        ensures
            final(self).wf(),
            final(self).ppu.mirroring == Self::spec_mirroring(old(self).reg_mode, old(self).reg_chr, old(self).reg_inner),
            final(self).ppu.chr == old(self).ppu.chr,
            final(self).ppu.vram == old(self).ppu.vram,
            final(self).ppu.palette == old(self).ppu.palette,
            final(self).ppu.chr_is_ram == old(self).ppu.chr_is_ram,
            final(self).ram == old(self).ram,
            final(self).prg_banks_16k == old(self).prg_banks_16k,
            final(self).chr_ram == old(self).chr_ram,
            final(self).reg_select == old(self).reg_select,
            final(self).reg_chr == old(self).reg_chr,
            final(self).reg_inner == old(self).reg_inner,
            final(self).reg_mode == old(self).reg_mode,
            final(self).reg_outer == old(self).reg_outer,
            final(self).controllers == old(self).controllers,
    {
        let m = self.reg_mode & 0x03;
        self.ppu.mirroring = if m == 0 {
            if self.reg_chr & 0x10 != 0 { NametableMirror::Higher } else { NametableMirror::Lower }
        } else if m == 1 {
            if self.reg_inner & 0x10 != 0 { NametableMirror::Higher } else { NametableMirror::Lower }
        } else if m == 2 {
            NametableMirror::Vertical
        } else {
            NametableMirror::Horizontal
        };
    }

    /// $5000-$5FFF selects a register; writes to $8000-$FFFF go to the
    /// selected one (bits 7 and 0 of the selection): CHR bank, inner bank,
    /// mode, outer bank. The mirroring follows the mode.
    pub fn cpu_write(&mut self, addr: u16, value: u8)
        requires
            old(self).wf(),
        ensures
            final(self).wf(),
            final(self).prg_banks_16k == old(self).prg_banks_16k,
            final(self).chr_ram == old(self).chr_ram,
            final(self).controllers == old(self).controllers,
            final(self).ppu.chr == old(self).ppu.chr,
            final(self).ppu.vram == old(self).ppu.vram,
            final(self).ppu.palette == old(self).ppu.palette,
            ({
                let a = spec_mirror_addr(addr);
                let page = spec_addr_to_page(a);
                let sel = old(self).reg_select & 0x81;
                &&& a < 0x8000 ==> final(self).ram@ == low_after_write(old(self).ram@, a, value)
                &&& a >= 0x8000 ==> final(self).ram == old(self).ram
                &&& page == 0x50 ==> final(self).reg_select == value
                &&& page != 0x50 ==> final(self).reg_select == old(self).reg_select
                &&& a >= 0x8000 && sel == 0x00 ==> final(self).reg_chr == value
                &&& !(a >= 0x8000 && sel == 0x00) ==> final(self).reg_chr == old(self).reg_chr
                &&& a >= 0x8000 && sel == 0x01 ==> final(self).reg_inner == value
                &&& !(a >= 0x8000 && sel == 0x01) ==> final(self).reg_inner == old(self).reg_inner
                &&& a >= 0x8000 && sel == 0x80 ==> final(self).reg_mode == value
                &&& !(a >= 0x8000 && sel == 0x80) ==> final(self).reg_mode == old(self).reg_mode
                &&& a >= 0x8000 && sel == 0x81 ==> final(self).reg_outer == value
                &&& !(a >= 0x8000 && sel == 0x81) ==> final(self).reg_outer == old(self).reg_outer
                &&& a >= 0x8000 && sel != 0x81 ==> final(self).ppu.mirroring == Self::spec_mirroring(
                    final(self).reg_mode,
                    final(self).reg_chr,
                    final(self).reg_inner,
                )
                &&& !(a >= 0x8000 && sel != 0x81) ==> final(self).ppu.mirroring == old(self).ppu.mirroring
            }),
    {
        let a = mirror_addr(addr);
        if a < 0x8000 {
            low_write(&mut self.ram, a, value);
            if addr_to_page(a) == 0x50 {
                self.reg_select = value;
            }
        } else {
            let reg_id = self.reg_select & 0x81;
            let rs = self.reg_select;
            assert(reg_id == 0 || reg_id == 1 || reg_id == 0x80 || reg_id == 0x81) by (bit_vector)
                requires reg_id == rs & 0x81u8;
            if reg_id == 0x00 {
                self.reg_chr = value;
                self.sync_mirroring();
            } else if reg_id == 0x01 {
                self.reg_inner = value;
                self.sync_mirroring();
            } else if reg_id == 0x80 {
                self.reg_mode = value;
                self.sync_mirroring();
            } else if reg_id == 0x81 {
                self.reg_outer = value;
            }
        }
    }

    /// CHR RAM offset of a pattern-table address.
    pub fn chr_offset(&self, addr: u16) -> (r: usize)
        requires
            addr < 0x2000,
        ensures
            r as int == self.spec_chr_offset(addr as int),
            r < CHR_TOTAL,
    {
        let rc = self.reg_chr;
        let c = rc & 0x03;
        assert(c <= 3) by (bit_vector)
            requires c == rc & 0x03u8;
        (c as usize) * CHR_BANK_SIZE + addr as usize
    }

    pub fn ppu_read(&self, addr: u16) -> (r: u8)
        requires
            self.wf(),
        ensures
            r == self.spec_ppu_read(addr),
    {
        let a = addr % 0x4000;
        if a < 0x2000 {
            self.chr_ram[self.chr_offset(a)]
        } else {
            self.ppu.read(a)
        }
    }

    pub fn ppu_write(&mut self, addr: u16, value: u8)
        requires
            old(self).wf(),
        ensures
            final(self).wf(),
            final(self).ram == old(self).ram,
            final(self).prg_banks_16k == old(self).prg_banks_16k,
            final(self).reg_chr == old(self).reg_chr,
            final(self).reg_inner == old(self).reg_inner,
            final(self).reg_mode == old(self).reg_mode,
            final(self).reg_outer == old(self).reg_outer,
            final(self).reg_select == old(self).reg_select,
            (addr as int) % 0x4000 < 0x2000 ==> final(self).chr_ram@ == old(self).chr_ram@.update(
                old(self).spec_chr_offset((addr as int) % 0x4000),
                value,
            ) && final(self).ppu == old(self).ppu,
            (addr as int) % 0x4000 >= 0x2000 ==> final(self).chr_ram == old(self).chr_ram
                && final(self).ppu@ == old(self).ppu@.write(((addr as int) % 0x4000) as u16, value),
    {
        let a = addr % 0x4000;
        if a < 0x2000 {
            let i = self.chr_offset(a);
            self.chr_ram.set(i, value);
        } else {
            self.ppu.write(a, value);
        }
    }

    pub fn code_start(&self) -> (r: u16)
        requires
            self.wf(),
        ensures
            r == word(self.spec_cpu_read(RESET_TARGET_ADDR), self.spec_cpu_read(0xFFFD)),
    {
        make_word(self.cpu_read(RESET_TARGET_ADDR), self.cpu_read(RESET_TARGET_ADDR + 1))
    }

    pub fn poll_irq(&self) -> (r: bool)
        ensures
            !r,
    {
        false
    }

    pub fn mapper_id(&self) -> (r: u8)
        ensures
            r == 28,
    {
        28
    }
}

impl Action53Mapper {
    /// The bytes `save_state` appends.
    pub open spec fn state_bytes(&self) -> Seq<u8> {
        self.ram@
            + self.ppu.chr@
            + self.ppu.vram@
            + self.ppu.palette@
            + enc_bool(self.ppu.chr_is_ram)
            + enc_u8(mirror_code(self.ppu.mirroring))
            + self.chr_ram@
            + enc_u8(self.reg_select)
            + enc_u8(self.reg_chr)
            + enc_u8(self.reg_inner)
            + enc_u8(self.reg_mode)
            + enc_u8(self.reg_outer)
            + enc_u8(mirror_code(self.ppu.mirroring))
            + controllers_bytes(self.controllers)
    }

    /// Length of the saved state.
    pub open spec fn state_len(&self) -> nat {
        (LOW_SPACE_SIZE + self.ppu.chr@.len() + VRAM_SIZE + PALETTE_SIZE + CHR_TOTAL + 2 * CONTROLLER_STATE_LEN + 8) as nat
    }

    /// Every register that the state stores in fewer bits than it is held in
    /// fits in those bits.
    pub open spec fn fits(&self) -> bool {
        true
    }

    /// The stored bytes at `p` hold a state that this cartridge can take.
    pub open spec fn state_valid(&self, d: Seq<u8>, p: int) -> bool {
        &&& mirror_from_code(d[(p + LOW_SPACE_SIZE + self.ppu.chr@.len() + VRAM_SIZE + PALETTE_SIZE + 1)]) is Some
        &&& mirror_from_code(d[(p + LOW_SPACE_SIZE + self.ppu.chr@.len() + VRAM_SIZE + PALETTE_SIZE + CHR_TOTAL + 7)]) is Some
    }

    /// What `load_state` answers for the bytes at `p`.
    pub open spec fn load_outcome(&self, d: Seq<u8>, p: int) -> Result<(), StateError> {
        if p + self.state_len() > d.len() {
            Err(StateError::UnexpectedEof)
        } else if !self.state_valid(d, p) {
            Err(StateError::InvalidValue)
        } else {
            Ok(())
        }
    }

    /// Every saved field holds what the bytes at `p` store.
    pub open spec fn loaded_from(&self, d: Seq<u8>, p: int) -> bool {
        &&& self.ram@ == d.subrange(p, p + LOW_SPACE_SIZE)
        &&& self.ppu.chr@ == d.subrange((p + LOW_SPACE_SIZE), (p + LOW_SPACE_SIZE) + self.ppu.chr@.len())
        &&& self.ppu.vram@ == d.subrange((p + LOW_SPACE_SIZE + self.ppu.chr@.len()), (p + LOW_SPACE_SIZE + self.ppu.chr@.len()) + VRAM_SIZE)
        &&& self.ppu.palette@ == d.subrange((p + LOW_SPACE_SIZE + self.ppu.chr@.len() + VRAM_SIZE), (p + LOW_SPACE_SIZE + self.ppu.chr@.len() + VRAM_SIZE) + PALETTE_SIZE)
        &&& self.ppu.chr_is_ram == (d[(p + LOW_SPACE_SIZE + self.ppu.chr@.len() + VRAM_SIZE + PALETTE_SIZE)] != 0)
        &&& self.chr_ram@ == d.subrange((p + LOW_SPACE_SIZE + self.ppu.chr@.len() + VRAM_SIZE + PALETTE_SIZE + 2), (p + LOW_SPACE_SIZE + self.ppu.chr@.len() + VRAM_SIZE + PALETTE_SIZE + 2) + CHR_TOTAL)
        &&& self.reg_select == d[(p + LOW_SPACE_SIZE + self.ppu.chr@.len() + VRAM_SIZE + PALETTE_SIZE + CHR_TOTAL + 2)]
        &&& self.reg_chr == d[(p + LOW_SPACE_SIZE + self.ppu.chr@.len() + VRAM_SIZE + PALETTE_SIZE + CHR_TOTAL + 3)]
        &&& self.reg_inner == d[(p + LOW_SPACE_SIZE + self.ppu.chr@.len() + VRAM_SIZE + PALETTE_SIZE + CHR_TOTAL + 4)]
        &&& self.reg_mode == d[(p + LOW_SPACE_SIZE + self.ppu.chr@.len() + VRAM_SIZE + PALETTE_SIZE + CHR_TOTAL + 5)]
        &&& self.reg_outer == d[(p + LOW_SPACE_SIZE + self.ppu.chr@.len() + VRAM_SIZE + PALETTE_SIZE + CHR_TOTAL + 6)]
        &&& self.ppu.mirroring == mirror_from_code(d[(p + LOW_SPACE_SIZE + self.ppu.chr@.len() + VRAM_SIZE + PALETTE_SIZE + CHR_TOTAL + 7)])->0
        &&& self.controllers@[0] == controller_at(d, (p + LOW_SPACE_SIZE + self.ppu.chr@.len() + VRAM_SIZE + PALETTE_SIZE + CHR_TOTAL + 8))
        &&& self.controllers@[1] == controller_at(d, (p + LOW_SPACE_SIZE + self.ppu.chr@.len() + VRAM_SIZE + PALETTE_SIZE + CHR_TOTAL + 8) + CONTROLLER_STATE_LEN)
    }

    /// The two agree on every saved field.
    pub open spec fn same_state(&self, other: &Self) -> bool {
        &&& self.ram@ == other.ram@
        &&& self.ppu.chr@ == other.ppu.chr@
        &&& self.ppu.vram@ == other.ppu.vram@
        &&& self.ppu.palette@ == other.ppu.palette@
        &&& self.ppu.chr_is_ram == other.ppu.chr_is_ram
        &&& self.chr_ram@ == other.chr_ram@
        &&& self.reg_select == other.reg_select
        &&& self.reg_chr == other.reg_chr
        &&& self.reg_inner == other.reg_inner
        &&& self.reg_mode == other.reg_mode
        &&& self.reg_outer == other.reg_outer
        &&& self.ppu.mirroring == other.ppu.mirroring
        &&& self.controllers@ == other.controllers@
    }

    /// The two agree on every field that the state does not store.
    pub open spec fn keeps_unsaved(&self, other: &Self) -> bool {
        &&& self.prg_banks_16k == other.prg_banks_16k
    }

    /// The two come from cartridges of the same shape.
    pub open spec fn same_layout(&self, other: &Self) -> bool {
        &&& self.ppu.chr@.len() == other.ppu.chr@.len()
    }

    #[verifier::spinoff_prover]
    pub fn save_state(&self, w: &mut SavestateWriter)
        ensures
            final(w).buf@ == old(w).buf@ + self.state_bytes(),
    {
        let ghost b = w.buf@;
        let ghost s0 = self.ram@;
        let ghost s1 = s0 + self.ppu.chr@;
        let ghost s2 = s1 + self.ppu.vram@;
        let ghost s3 = s2 + self.ppu.palette@;
        let ghost s4 = s3 + enc_bool(self.ppu.chr_is_ram);
        let ghost s5 = s4 + enc_u8(mirror_code(self.ppu.mirroring));
        let ghost s6 = s5 + self.chr_ram@;
        let ghost s7 = s6 + enc_u8(self.reg_select);
        let ghost s8 = s7 + enc_u8(self.reg_chr);
        let ghost s9 = s8 + enc_u8(self.reg_inner);
        let ghost s10 = s9 + enc_u8(self.reg_mode);
        let ghost s11 = s10 + enc_u8(self.reg_outer);
        let ghost s12 = s11 + enc_u8(mirror_code(self.ppu.mirroring));
        let ghost s13 = s12 + controllers_bytes(self.controllers);
        w.write_bytes(self.ram.as_slice());
        w.write_bytes(self.ppu.chr.as_slice());
        proof {
            lemma_add_assoc(b, s0, self.ppu.chr@);
        }
        w.write_bytes(self.ppu.vram.as_slice());
        proof {
            lemma_add_assoc(b, s1, self.ppu.vram@);
        }
        w.write_bytes(self.ppu.palette.as_slice());
        proof {
            lemma_add_assoc(b, s2, self.ppu.palette@);
        }
        w.write_bool(self.ppu.chr_is_ram);
        proof {
            lemma_add_assoc(b, s3, enc_bool(self.ppu.chr_is_ram));
        }
        save_mirroring(w, self.ppu.mirroring);
        proof {
            lemma_add_assoc(b, s4, enc_u8(mirror_code(self.ppu.mirroring)));
        }
        w.write_bytes(self.chr_ram.as_slice());
        proof {
            lemma_add_assoc(b, s5, self.chr_ram@);
        }
        w.write_u8(self.reg_select);
        proof {
            lemma_add_assoc(b, s6, enc_u8(self.reg_select));
        }
        w.write_u8(self.reg_chr);
        proof {
            lemma_add_assoc(b, s7, enc_u8(self.reg_chr));
        }
        w.write_u8(self.reg_inner);
        proof {
            lemma_add_assoc(b, s8, enc_u8(self.reg_inner));
        }
        w.write_u8(self.reg_mode);
        proof {
            lemma_add_assoc(b, s9, enc_u8(self.reg_mode));
        }
        w.write_u8(self.reg_outer);
        proof {
            lemma_add_assoc(b, s10, enc_u8(self.reg_outer));
        }
        save_mirroring(w, self.ppu.mirroring);
        proof {
            lemma_add_assoc(b, s11, enc_u8(mirror_code(self.ppu.mirroring)));
        }
        save_controllers(w, &self.controllers);
        proof {
            lemma_add_assoc(b, s12, controllers_bytes(self.controllers));
        }
    }

    /// Restores a state written by `save_state`. Nothing changes unless the
    /// whole state is there and holds values this cartridge can take.
    #[verifier::spinoff_prover]
    pub fn load_state(&mut self, r: &mut SavestateReader) -> (res: Result<(), StateError>)
        requires
            old(self).wf(),
            old(r).wf(),
        ensures
            final(r).wf(),
            final(r).data@ == old(r).data@,
            res == old(self).load_outcome(old(r).data@, old(r).pos as int),
            res is Err ==> *final(self) == *old(self) && final(r).pos == old(r).pos,
            res is Ok ==> final(self).wf() && final(self).loaded_from(old(r).data@, old(r).pos as int)
                && final(self).keeps_unsaved(&*old(self)) && final(self).same_layout(&*old(self))
                && final(r).pos == old(r).pos + old(self).state_len(),
    {
        let ghost d = r.data@;
        let ghost p = r.pos as int;
        let start = r.pos;
        let rem = r.remaining_len();
        if rem < self.ppu.chr.len() || rem - self.ppu.chr.len() < LOW_SPACE_SIZE + VRAM_SIZE + PALETTE_SIZE + CHR_TOTAL + 2 * CONTROLLER_STATE_LEN + 8 {
            return Err(StateError::UnexpectedEof);
        }
        let ram = r.take_bytes(LOW_SPACE_SIZE);
        let ppu_chr = r.take_bytes(self.ppu.chr.len());
        let ppu_vram = r.take_bytes(VRAM_SIZE);
        let ppu_palette = r.take_bytes(PALETTE_SIZE);
        let ppu_chr_is_ram = r.take_bool();
        let ppu_mirroring_saved_code = r.take_u8();
        let chr_ram = r.take_bytes(CHR_TOTAL);
        let reg_select = r.take_u8();
        let reg_chr = r.take_u8();
        let reg_inner = r.take_u8();
        let reg_mode = r.take_u8();
        let reg_outer = r.take_u8();
        let ppu_mirroring_code = r.take_u8();
        let controllers = take_controllers(r);
        if mirroring_from_code(ppu_mirroring_saved_code).is_none() {
            r.rewind(start);
            return Err(StateError::InvalidValue);
        }
        let ppu_mirroring = match mirroring_from_code(ppu_mirroring_code) {
            Some(m) => m,
            None => {
                r.rewind(start);
                return Err(StateError::InvalidValue);
            },
        };
        self.ram = ram;
        self.ppu.chr = ppu_chr;
        self.ppu.vram = ppu_vram;
        self.ppu.palette = ppu_palette;
        self.ppu.chr_is_ram = ppu_chr_is_ram;
        self.chr_ram = chr_ram;
        self.reg_select = reg_select;
        self.reg_chr = reg_chr;
        self.reg_inner = reg_inner;
        self.reg_mode = reg_mode;
        self.reg_outer = reg_outer;
        self.ppu.mirroring = ppu_mirroring;
        self.controllers = controllers;
        Ok(())
    }

    /// Saving a state and loading it into a cartridge of the same shape
    /// succeeds and restores every saved field.
    #[verifier::spinoff_prover]
    pub proof fn lemma_state_roundtrip(o: Self, m: Self, n: Self, d: Seq<u8>, p: int)
        requires
            o.wf(),
            m.wf(),
            m.fits(),
            o.same_layout(&m),
            n.same_layout(&m),
            stored_at(d, p, m.state_bytes()),
        ensures
            o.load_outcome(d, p) == Ok::<(), StateError>(()),
            n.loaded_from(d, p) ==> n.same_state(&m),
    {
        let s0 = m.ram@;
        let s1 = s0 + m.ppu.chr@;
        let s2 = s1 + m.ppu.vram@;
        let s3 = s2 + m.ppu.palette@;
        let s4 = s3 + enc_bool(m.ppu.chr_is_ram);
        let s5 = s4 + enc_u8(mirror_code(m.ppu.mirroring));
        let s6 = s5 + m.chr_ram@;
        let s7 = s6 + enc_u8(m.reg_select);
        let s8 = s7 + enc_u8(m.reg_chr);
        let s9 = s8 + enc_u8(m.reg_inner);
        let s10 = s9 + enc_u8(m.reg_mode);
        let s11 = s10 + enc_u8(m.reg_outer);
        let s12 = s11 + enc_u8(mirror_code(m.ppu.mirroring));
        let s13 = s12 + controllers_bytes(m.controllers);
        lemma_stored_split(d, p, s12, controllers_bytes(m.controllers));
        lemma_stored_split(d, p, s11, enc_u8(mirror_code(m.ppu.mirroring)));
        lemma_stored_split(d, p, s10, enc_u8(m.reg_outer));
        lemma_stored_split(d, p, s9, enc_u8(m.reg_mode));
        lemma_stored_split(d, p, s8, enc_u8(m.reg_inner));
        lemma_stored_split(d, p, s7, enc_u8(m.reg_chr));
        lemma_stored_split(d, p, s6, enc_u8(m.reg_select));
        lemma_stored_split(d, p, s5, m.chr_ram@);
        lemma_stored_split(d, p, s4, enc_u8(mirror_code(m.ppu.mirroring)));
        lemma_stored_split(d, p, s3, enc_bool(m.ppu.chr_is_ram));
        lemma_stored_split(d, p, s2, m.ppu.palette@);
        lemma_stored_split(d, p, s1, m.ppu.vram@);
        lemma_stored_split(d, p, s0, m.ppu.chr@);
        lemma_stored_bool(d, (p + LOW_SPACE_SIZE + m.ppu.chr@.len() + VRAM_SIZE + PALETTE_SIZE), m.ppu.chr_is_ram);
        lemma_stored_u8(d, (p + LOW_SPACE_SIZE + m.ppu.chr@.len() + VRAM_SIZE + PALETTE_SIZE + 1), mirror_code(m.ppu.mirroring));
        lemma_mirror_code_roundtrip(m.ppu.mirroring);
        lemma_stored_u8(d, (p + LOW_SPACE_SIZE + m.ppu.chr@.len() + VRAM_SIZE + PALETTE_SIZE + CHR_TOTAL + 2), m.reg_select);
        lemma_stored_u8(d, (p + LOW_SPACE_SIZE + m.ppu.chr@.len() + VRAM_SIZE + PALETTE_SIZE + CHR_TOTAL + 3), m.reg_chr);
        lemma_stored_u8(d, (p + LOW_SPACE_SIZE + m.ppu.chr@.len() + VRAM_SIZE + PALETTE_SIZE + CHR_TOTAL + 4), m.reg_inner);
        lemma_stored_u8(d, (p + LOW_SPACE_SIZE + m.ppu.chr@.len() + VRAM_SIZE + PALETTE_SIZE + CHR_TOTAL + 5), m.reg_mode);
        lemma_stored_u8(d, (p + LOW_SPACE_SIZE + m.ppu.chr@.len() + VRAM_SIZE + PALETTE_SIZE + CHR_TOTAL + 6), m.reg_outer);
        lemma_stored_u8(d, (p + LOW_SPACE_SIZE + m.ppu.chr@.len() + VRAM_SIZE + PALETTE_SIZE + CHR_TOTAL + 7), mirror_code(m.ppu.mirroring));
        lemma_mirror_code_roundtrip(m.ppu.mirroring);
        lemma_stored_controllers(d, (p + LOW_SPACE_SIZE + m.ppu.chr@.len() + VRAM_SIZE + PALETTE_SIZE + CHR_TOTAL + 8), m.controllers);
        if n.loaded_from(d, p) {
            assert(n.controllers@ =~= m.controllers@);
        }
    }
}

impl Action53Mapper {
    /// Where a bulk copy of `size` bytes from `addr` reads: the CHR RAM from
    /// the selected bank's address on, when it holds them all; or the
    /// nametable RAM from the mirrored address on ($2000-$3FFF).
    pub open spec fn copy_run(&self, addr: u16, size: int) -> Option<(Seq<u8>, int, int)> {
        let a = (addr as int) % 0x4000;
        if a < 0x2000 {
            let i = self.spec_chr_offset(a);
            if i + size <= self.chr_ram@.len() {
                Some((self.chr_ram@, i, size))
            } else {
                None
            }
        } else {
            Some((self.ppu.vram@, nt_offset(a as u16, self.ppu.mirroring), size))
        }
    }

    /// Copies up to `size` bytes of PPU memory from `addr` to the front of
    /// `dest`, from one run of the memory behind that address; a nametable
    /// run must hold them.
    pub fn ppu_copy(&self, addr: u16, dest: &mut Vec<u8>, size: usize)
        requires
            self.wf(),
            size <= old(dest)@.len(),
            ({
                let a = (addr as int) % 0x4000;
                a >= 0x2000 ==> nt_offset(a as u16, self.ppu.mirroring) + size <= VRAM_SIZE
            }),
        ensures
            match self.copy_run(addr, size as int) {
                Some((src, off, n)) => final(dest)@ == copied_into(old(dest)@, src, off, n),
                None => final(dest)@ == old(dest)@,
            },
    {
        let a = addr % 0x4000;
        if a < 0x2000 {
            let i = self.chr_offset(a);
            if size <= CHR_TOTAL - i {
                copy_vec_to_front(dest, &self.chr_ram, i, size);
            }
        } else {
            let v = mirror_nametable_addr(a, self.ppu.mirroring) as usize;
            copy_vec_to_front(dest, &self.ppu.vram, v, size);
        }
    }
}

} // verus!
