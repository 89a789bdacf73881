//! Bandai Oeka Kids (mapper 96): a 32KB PRG bank and an outer CHR half
//! selected with bus conflicts, and an inner 4KB CHR page latched from the
//! nametable address the PPU moves to.

use vstd::prelude::*;
use crate::bus::{NametableMirror, CPU_RAM_SIZE, VRAM_SIZE, PALETTE_SIZE, RESET_TARGET_ADDR, spec_mirroring_from_flags, mirroring_from_flags, nt_offset, mirror_nametable_addr, palette_slot, palette_index, word, make_word};
use crate::ppu_bus::{zeroed, filled};
use crate::controller::Controller;
use crate::mapper::common::new_controllers;
use crate::mapper::mapper77::{bank32_byte, bank32_count};

use crate::savestate::{SavestateWriter, SavestateReader, StateError, enc_u8, enc_u16, dec_u16_at, stored_at, lemma_add_assoc, lemma_stored_split, lemma_stored_u8, lemma_stored_u16};
use crate::controller::{controllers_bytes, controller_at, save_controllers, take_controllers, lemma_stored_controllers, CONTROLLER_STATE_LEN};
use crate::ppu_bus::{mirror_code, mirror_from_code, mirroring_from_code, save_mirroring, lemma_mirror_code_roundtrip};

verus! {

pub const PRG_BANK_SIZE: usize = 0x8000;
pub const CHR_RAM_SIZE: usize = 0x8000;
pub const CHR_PAGE_SIZE: usize = 0x1000;

/// The 32KB PRG banks are consecutive pairs of the image's 16KB banks; an
/// odd last bank is paired with itself.
pub struct OekaKidsMapper {
    pub controllers: [Controller; 2],
    pub prg_16k: Vec<[u8; 16384]>,
    pub selected_prg: u8,
    pub outer_chr: u8,
    pub inner_chr: u8,
    pub last_fetch_addr: u16,
    pub mirroring: NametableMirror,
    pub chr_ram: Vec<u8>,
    pub vram: Vec<u8>,
    pub cpu_ram: Vec<u8>,
    pub palette_ram: Vec<u8>,
}

/// Whether an address lies in $2000-$2FFF (and its mirrors every 16KB).
pub open spec fn in_nametables(a: u16) -> bool {
    (a as int) % 0x4000 / 0x1000 == 2
}

/// The inner CHR page after the PPU address moved from `last` to `addr`:
/// entering the nametables latches bits 8-9 of the address.
pub open spec fn latched_inner(last: u16, addr: u16, inner: u8) -> u8 {
    if !in_nametables(last) && in_nametables(addr) { (((addr as int) / 256) % 4) as u8 } else { inner }
}

impl OekaKidsMapper {
    pub open spec fn wf(&self) -> bool {
        &&& self.cpu_ram@.len() == CPU_RAM_SIZE
        &&& self.chr_ram@.len() == CHR_RAM_SIZE
        &&& self.vram@.len() == VRAM_SIZE
        &&& self.palette_ram@.len() == PALETTE_SIZE
        &&& self.prg_16k@.len() + 1 <= usize::MAX
    }

    pub open spec fn spec_prg_read(&self, addr: u16) -> u8 {
        let n = bank32_count(self.prg_16k@);
        if n == 0 { 0 } else { bank32_byte(self.prg_16k@, self.selected_prg as int % n, (addr as int) % 0x8000) }
    }

    pub open spec fn spec_cpu_read(&self, addr: u16) -> u8 {
        if addr <= 0x1FFF {
            self.cpu_ram@[(addr as int) % 0x800]
        } else if addr >= 0x8000 {
            self.spec_prg_read(addr)
        } else {
            0
        }
    }

    /// Offset into CHR RAM of a pattern-table address: the lower table shows
    /// page `outer | inner`, the upper one page `outer | 3`.
    pub open spec fn spec_chr_addr(&self, addr: u16) -> int {
        let page = if addr < 0x1000 { (self.outer_chr | self.inner_chr) as int } else { (self.outer_chr | 3) as int };
        (page * 0x1000 + (addr as int) % 0x1000) % 0x8000
    }

    pub open spec fn spec_ppu_read(&self, addr: u16) -> u8 {
        if addr <= 0x1FFF {
            self.chr_ram@[self.spec_chr_addr(addr)]
        } else if addr <= 0x3EFF {
            self.vram@[nt_offset(addr, self.mirroring)]
        } else if addr <= 0x3FFF {
            self.palette_ram@[palette_slot(addr)]
        } else {
            0
        }
    }

    pub fn new(flags: u8, prg_banks_16k: Vec<[u8; 16384]>) -> (m: OekaKidsMapper)
        requires
            prg_banks_16k@.len() + 1 <= usize::MAX,
        ensures
            m.wf(),
            m.prg_16k@ == prg_banks_16k@,
            m.selected_prg == 0 && m.outer_chr == 0 && m.inner_chr == 0 && m.last_fetch_addr == 0,
            m.mirroring == spec_mirroring_from_flags(flags),
            m.chr_ram@ == Seq::new(CHR_RAM_SIZE as nat, |i: int| 0u8),
            m.vram@ == Seq::new(VRAM_SIZE as nat, |i: int| 0u8),
            m.cpu_ram@ == Seq::new(CPU_RAM_SIZE as nat, |i: int| 0u8),
            m.palette_ram@ == Seq::new(PALETTE_SIZE as nat, |i: int| 0x0Fu8),
    {
        OekaKidsMapper {
            controllers: new_controllers(),
            prg_16k: prg_banks_16k,
            selected_prg: 0,
            outer_chr: 0,
            inner_chr: 0,
            last_fetch_addr: 0,
            mirroring: mirroring_from_flags(flags),
            chr_ram: zeroed(CHR_RAM_SIZE),
            vram: zeroed(VRAM_SIZE),
            cpu_ram: zeroed(CPU_RAM_SIZE),
            palette_ram: filled(PALETTE_SIZE, 0x0F),
        }
    }

    fn prg_read(&self, addr: u16) -> (r: u8)
        requires
            self.wf(),
        ensures
            r == self.spec_prg_read(addr),
    {
        let n = (self.prg_16k.len() + 1) / 2;
        if n == 0 {
            return 0;
        }
        let bank = self.selected_prg as usize % n;
        let off = (addr % 0x8000) as usize;
        if off < 0x4000 {
            self.prg_16k[2 * bank][off]
        } else {
            let hi = if 2 * bank + 1 < self.prg_16k.len() { 2 * bank + 1 } else { 2 * bank };
            self.prg_16k[hi][off - 0x4000]
        }
    }

    fn chr_addr(&self, addr: u16) -> (r: usize)
        ensures
            r as int == self.spec_chr_addr(addr),
            r < CHR_RAM_SIZE,
    {
        let page: usize = if addr < 0x1000 { (self.outer_chr | self.inner_chr) as usize } else { (self.outer_chr | 3) as usize };
        (page * CHR_PAGE_SIZE + (addr % 0x1000) as usize) % CHR_RAM_SIZE
    }

    fn latch_vram_addr(&mut self, addr: u16)
        ensures
            final(self).inner_chr == latched_inner(old(self).last_fetch_addr, addr, old(self).inner_chr),
            final(self).last_fetch_addr == addr,
            final(self).selected_prg == old(self).selected_prg,
            final(self).outer_chr == old(self).outer_chr,
            final(self).mirroring == old(self).mirroring,
            final(self).prg_16k == old(self).prg_16k,
            final(self).chr_ram == old(self).chr_ram,
            final(self).vram == old(self).vram,
            final(self).cpu_ram == old(self).cpu_ram,
            final(self).palette_ram == old(self).palette_ram,
            final(self).controllers == old(self).controllers,
    {
        let last = self.last_fetch_addr;
        if (last % 0x4000) / 0x1000 != 2 && (addr % 0x4000) / 0x1000 == 2 {
            self.inner_chr = ((addr / 256) % 4) as u8;
        }
        self.last_fetch_addr = addr;
    }

    pub fn cpu_peek(&self, addr: u16) -> (r: u8)
        requires
            self.wf(),
        ensures
            r == self.spec_cpu_read(addr),
    {
        if addr <= 0x1FFF {
            self.cpu_ram[(addr % 0x800) as usize]
        } else if addr >= 0x8000 {
            self.prg_read(addr)
        } else {
            0
        }
    }

    pub fn cpu_read(&self, addr: u16) -> (r: u8)
        requires
            self.wf(),
        ensures
            r == self.spec_cpu_read(addr),
    {
        self.cpu_peek(addr)
    }

    /// A write to $8000-$FFFF is ANDed with the ROM byte under it; bits 0-1
    /// select the PRG bank and bit 2 the outer CHR half.
    pub fn cpu_write(&mut self, addr: u16, value: u8)
        requires
            old(self).wf(),
        ensures
            final(self).wf(),
            addr <= 0x1FFF ==> final(self).cpu_ram@ == old(self).cpu_ram@.update((addr as int) % 0x800, value),
            addr > 0x1FFF ==> final(self).cpu_ram == old(self).cpu_ram,
            addr >= 0x8000 ==> ({
                let v = value & old(self).spec_prg_read(addr);
                &&& final(self).selected_prg == v & 0x03
                &&& final(self).outer_chr == v & 0x04
            }),
            addr < 0x8000 ==> final(self).selected_prg == old(self).selected_prg
                && final(self).outer_chr == old(self).outer_chr,
            final(self).inner_chr == old(self).inner_chr,
            final(self).last_fetch_addr == old(self).last_fetch_addr,
            final(self).prg_16k == old(self).prg_16k,
            final(self).chr_ram == old(self).chr_ram,
            final(self).vram == old(self).vram,
            final(self).palette_ram == old(self).palette_ram,
            final(self).mirroring == old(self).mirroring,
            final(self).controllers == old(self).controllers,
    {
        if addr <= 0x1FFF {
            self.cpu_ram.set((addr % 0x800) as usize, value);
        } else if addr >= 0x8000 {
            let v = value & self.prg_read(addr);
            self.selected_prg = v & 0x03;
            self.outer_chr = v & 0x04;
        }
    }

    /// A rendering fetch: the address first moves the latch, then the byte
    /// is read with the latched page.
    pub fn ppu_fetch(&mut self, addr: u16, dot: u64) -> (r: u8)
        requires
            old(self).wf(),
        ensures
            final(self).wf(),
            final(self).inner_chr == latched_inner(old(self).last_fetch_addr, addr, old(self).inner_chr),
            final(self).last_fetch_addr == addr,
            r == final(self).spec_ppu_read(addr),
            final(self).selected_prg == old(self).selected_prg,
            final(self).outer_chr == old(self).outer_chr,
            final(self).chr_ram == old(self).chr_ram,
            final(self).vram == old(self).vram,
            final(self).palette_ram == old(self).palette_ram,
            final(self).cpu_ram == old(self).cpu_ram,
            final(self).mirroring == old(self).mirroring,
            final(self).prg_16k == old(self).prg_16k,
    {
        self.latch_vram_addr(addr);
        self.ppu_read(addr)
    }

    /// The PPU address register moved: the latch follows it.
    pub fn notify_vram_addr(&mut self, addr: u16)
        requires
            old(self).wf(),
        ensures
            final(self).wf(),
            final(self).inner_chr == latched_inner(old(self).last_fetch_addr, addr, old(self).inner_chr),
            final(self).last_fetch_addr == addr,
            final(self).selected_prg == old(self).selected_prg,
            final(self).outer_chr == old(self).outer_chr,
            final(self).chr_ram == old(self).chr_ram,
            final(self).vram == old(self).vram,
            final(self).palette_ram == old(self).palette_ram,
            final(self).cpu_ram == old(self).cpu_ram,
            final(self).mirroring == old(self).mirroring,
            final(self).prg_16k == old(self).prg_16k,
    {
        self.latch_vram_addr(addr);
    }

    pub fn ppu_read(&self, addr: u16) -> (r: u8)
        requires
            self.wf(),
        ensures
            r == self.spec_ppu_read(addr),
    {
        if addr <= 0x1FFF {
            self.chr_ram[self.chr_addr(addr)]
        } else if addr <= 0x3EFF {
            self.vram[mirror_nametable_addr(addr, self.mirroring) as usize]
        } else if addr <= 0x3FFF {
            self.palette_ram[palette_index(addr)]
        } else {
            0
        }
    }

    /// CHR RAM through the current pages, nametables and palette.
    pub fn ppu_write(&mut self, addr: u16, value: u8)
        requires
            old(self).wf(),
        ensures
            final(self).wf(),
            addr <= 0x1FFF ==> final(self).chr_ram@ == old(self).chr_ram@.update(old(self).spec_chr_addr(addr), value),
            addr > 0x1FFF ==> final(self).chr_ram == old(self).chr_ram,
            0x2000 <= addr <= 0x3EFF ==> final(self).vram@ == old(self).vram@.update(nt_offset(addr, old(self).mirroring), value),
            !(0x2000 <= addr <= 0x3EFF) ==> final(self).vram == old(self).vram,
            0x3F00 <= addr <= 0x3FFF ==> final(self).palette_ram@ == old(self).palette_ram@.update(palette_slot(addr), value),
            !(0x3F00 <= addr <= 0x3FFF) ==> final(self).palette_ram == old(self).palette_ram,
            final(self).cpu_ram == old(self).cpu_ram,
            final(self).selected_prg == old(self).selected_prg,
            final(self).outer_chr == old(self).outer_chr,
            final(self).inner_chr == old(self).inner_chr,
            final(self).last_fetch_addr == old(self).last_fetch_addr,
            final(self).mirroring == old(self).mirroring,
            final(self).prg_16k == old(self).prg_16k,
    {
        if addr <= 0x1FFF {
            let a = self.chr_addr(addr);
            self.chr_ram.set(a, value);
        } else if addr <= 0x3EFF {
            let i = mirror_nametable_addr(addr, self.mirroring) as usize;
            self.vram.set(i, value);
        } else if addr <= 0x3FFF {
            let i = palette_index(addr);
            self.palette_ram.set(i, value);
        }
    }

    pub fn code_start(&self) -> (r: u16)
        requires
            self.wf(),
        ensures
            r == word(self.spec_cpu_read(RESET_TARGET_ADDR), self.spec_cpu_read(0xFFFD)),
    {
        make_word(self.cpu_peek(RESET_TARGET_ADDR), self.cpu_peek(RESET_TARGET_ADDR + 1))
    }

    pub fn poll_irq(&self) -> (r: bool)
        ensures
            !r,
    {
        false
    }

    pub fn mapper_id(&self) -> (r: u8)
        ensures
            r == 96,
    {
        96
    }
}

impl OekaKidsMapper {
    /// The bytes `save_state` appends.
    pub open spec fn state_bytes(&self) -> Seq<u8> {
        self.cpu_ram@
            + self.chr_ram@
            + self.vram@
            + self.palette_ram@
            + enc_u8(self.selected_prg)
            + enc_u8(self.outer_chr)
            + enc_u8(self.inner_chr)
            + enc_u16(self.last_fetch_addr)
            + enc_u8(mirror_code(self.mirroring))
            + controllers_bytes(self.controllers)
    }

    /// Length of the saved state.
    pub open spec fn state_len(&self) -> nat {
        (CPU_RAM_SIZE + CHR_RAM_SIZE + VRAM_SIZE + PALETTE_SIZE + 2 * CONTROLLER_STATE_LEN + 6) as nat
    }

    /// Every register that the state stores in fewer bits than it is held in
    /// fits in those bits.
    pub open spec fn fits(&self) -> bool {
        true
    }

    /// The stored bytes at `p` hold a state that this cartridge can take.
    pub open spec fn state_valid(&self, d: Seq<u8>, p: int) -> bool {
        &&& mirror_from_code(d[(p + CPU_RAM_SIZE + CHR_RAM_SIZE + VRAM_SIZE + PALETTE_SIZE + 5)]) is Some
    }

    /// What `load_state` answers for the bytes at `p`.
    pub open spec fn load_outcome(&self, d: Seq<u8>, p: int) -> Result<(), StateError> {
        if p + self.state_len() > d.len() {
            Err(StateError::UnexpectedEof)
        } else if !self.state_valid(d, p) {
            Err(StateError::InvalidValue)
        } else {
            Ok(())
        }
    }

    /// Every saved field holds what the bytes at `p` store.
    pub open spec fn loaded_from(&self, d: Seq<u8>, p: int) -> bool {
        &&& self.cpu_ram@ == d.subrange(p, p + CPU_RAM_SIZE)
        &&& self.chr_ram@ == d.subrange((p + CPU_RAM_SIZE), (p + CPU_RAM_SIZE) + CHR_RAM_SIZE)
        &&& self.vram@ == d.subrange((p + CPU_RAM_SIZE + CHR_RAM_SIZE), (p + CPU_RAM_SIZE + CHR_RAM_SIZE) + VRAM_SIZE)
        &&& self.palette_ram@ == d.subrange((p + CPU_RAM_SIZE + CHR_RAM_SIZE + VRAM_SIZE), (p + CPU_RAM_SIZE + CHR_RAM_SIZE + VRAM_SIZE) + PALETTE_SIZE)
        &&& self.selected_prg == d[(p + CPU_RAM_SIZE + CHR_RAM_SIZE + VRAM_SIZE + PALETTE_SIZE)]
        &&& self.outer_chr == d[(p + CPU_RAM_SIZE + CHR_RAM_SIZE + VRAM_SIZE + PALETTE_SIZE + 1)]
        &&& self.inner_chr == d[(p + CPU_RAM_SIZE + CHR_RAM_SIZE + VRAM_SIZE + PALETTE_SIZE + 2)]
        &&& self.last_fetch_addr == dec_u16_at(d, (p + CPU_RAM_SIZE + CHR_RAM_SIZE + VRAM_SIZE + PALETTE_SIZE + 3))
        &&& self.mirroring == mirror_from_code(d[(p + CPU_RAM_SIZE + CHR_RAM_SIZE + VRAM_SIZE + PALETTE_SIZE + 5)])->0
        &&& self.controllers@[0] == controller_at(d, (p + CPU_RAM_SIZE + CHR_RAM_SIZE + VRAM_SIZE + PALETTE_SIZE + 6))
        &&& self.controllers@[1] == controller_at(d, (p + CPU_RAM_SIZE + CHR_RAM_SIZE + VRAM_SIZE + PALETTE_SIZE + 6) + CONTROLLER_STATE_LEN)
    }

    /// The two agree on every saved field.
    pub open spec fn same_state(&self, other: &Self) -> bool {
        &&& self.cpu_ram@ == other.cpu_ram@
        &&& self.chr_ram@ == other.chr_ram@
        &&& self.vram@ == other.vram@
        &&& self.palette_ram@ == other.palette_ram@
        &&& self.selected_prg == other.selected_prg
        &&& self.outer_chr == other.outer_chr
        &&& self.inner_chr == other.inner_chr
        &&& self.last_fetch_addr == other.last_fetch_addr
        &&& self.mirroring == other.mirroring
        &&& self.controllers@ == other.controllers@
    }

    /// The two agree on every field that the state does not store.
    pub open spec fn keeps_unsaved(&self, other: &Self) -> bool {
        &&& self.prg_16k == other.prg_16k
    }

    /// The two come from cartridges of the same shape.
    pub open spec fn same_layout(&self, other: &Self) -> bool {
        true
    }

    #[verifier::spinoff_prover]
    pub fn save_state(&self, w: &mut SavestateWriter)
        ensures
            final(w).buf@ == old(w).buf@ + self.state_bytes(),
    {
        let ghost b = w.buf@;
        let ghost s0 = self.cpu_ram@;
        let ghost s1 = s0 + self.chr_ram@;
        let ghost s2 = s1 + self.vram@;
        let ghost s3 = s2 + self.palette_ram@;
        let ghost s4 = s3 + enc_u8(self.selected_prg);
        let ghost s5 = s4 + enc_u8(self.outer_chr);
        let ghost s6 = s5 + enc_u8(self.inner_chr);
        let ghost s7 = s6 + enc_u16(self.last_fetch_addr);
        let ghost s8 = s7 + enc_u8(mirror_code(self.mirroring));
        let ghost s9 = s8 + controllers_bytes(self.controllers);
        w.write_bytes(self.cpu_ram.as_slice());
        w.write_bytes(self.chr_ram.as_slice());
        proof {
            lemma_add_assoc(b, s0, self.chr_ram@);
        }
        w.write_bytes(self.vram.as_slice());
        proof {
            lemma_add_assoc(b, s1, self.vram@);
        }
        w.write_bytes(self.palette_ram.as_slice());
        proof {
            lemma_add_assoc(b, s2, self.palette_ram@);
        }
        w.write_u8(self.selected_prg);
        proof {
            lemma_add_assoc(b, s3, enc_u8(self.selected_prg));
        }
        w.write_u8(self.outer_chr);
        proof {
            lemma_add_assoc(b, s4, enc_u8(self.outer_chr));
        }
        w.write_u8(self.inner_chr);
        proof {
            lemma_add_assoc(b, s5, enc_u8(self.inner_chr));
        }
        w.write_u16(self.last_fetch_addr);
        proof {
            lemma_add_assoc(b, s6, enc_u16(self.last_fetch_addr));
        }
        save_mirroring(w, self.mirroring);
        proof {
            lemma_add_assoc(b, s7, enc_u8(mirror_code(self.mirroring)));
        }
        save_controllers(w, &self.controllers);
        proof {
            lemma_add_assoc(b, s8, controllers_bytes(self.controllers));
        }
    }

    /// Restores a state written by `save_state`. Nothing changes unless the
    /// whole state is there and holds values this cartridge can take.
    #[verifier::spinoff_prover]
    pub fn load_state(&mut self, r: &mut SavestateReader) -> (res: Result<(), StateError>)
        requires
            old(self).wf(),
            old(r).wf(),
        ensures
            final(r).wf(),
            final(r).data@ == old(r).data@,
            res == old(self).load_outcome(old(r).data@, old(r).pos as int),
            res is Err ==> *final(self) == *old(self) && final(r).pos == old(r).pos,
            res is Ok ==> final(self).wf() && final(self).loaded_from(old(r).data@, old(r).pos as int)
                && final(self).keeps_unsaved(&*old(self)) && final(self).same_layout(&*old(self))
                && final(r).pos == old(r).pos + old(self).state_len(),
    {
        let ghost d = r.data@;
        let ghost p = r.pos as int;
        let start = r.pos;
        if r.remaining_len() < CPU_RAM_SIZE + CHR_RAM_SIZE + VRAM_SIZE + PALETTE_SIZE + 2 * CONTROLLER_STATE_LEN + 6 {
            return Err(StateError::UnexpectedEof);
        }
        let cpu_ram = r.take_bytes(CPU_RAM_SIZE);
        let chr_ram = r.take_bytes(CHR_RAM_SIZE);
        let vram = r.take_bytes(VRAM_SIZE);
        let palette_ram = r.take_bytes(PALETTE_SIZE);
        let selected_prg = r.take_u8();
        let outer_chr = r.take_u8();
        let inner_chr = r.take_u8();
        let last_fetch_addr = r.take_u16();
        let mirroring_code = r.take_u8();
        let controllers = take_controllers(r);
        let mirroring = match mirroring_from_code(mirroring_code) {
            Some(m) => m,
            None => {
                r.rewind(start);
                return Err(StateError::InvalidValue);
            },
        };
        self.cpu_ram = cpu_ram;
        self.chr_ram = chr_ram;
        self.vram = vram;
        self.palette_ram = palette_ram;
        self.selected_prg = selected_prg;
        self.outer_chr = outer_chr;
        self.inner_chr = inner_chr;
        self.last_fetch_addr = last_fetch_addr;
        self.mirroring = mirroring;
        self.controllers = controllers;
        Ok(())
    }

    /// Saving a state and loading it into a cartridge of the same shape
    /// succeeds and restores every saved field.
    #[verifier::spinoff_prover]
    pub proof fn lemma_state_roundtrip(o: Self, m: Self, n: Self, d: Seq<u8>, p: int)
        requires
            o.wf(),
            m.wf(),
            m.fits(),
            o.same_layout(&m),
            n.same_layout(&m),
            stored_at(d, p, m.state_bytes()),
        ensures
            o.load_outcome(d, p) == Ok::<(), StateError>(()),
            n.loaded_from(d, p) ==> n.same_state(&m),
    {
        let s0 = m.cpu_ram@;
        let s1 = s0 + m.chr_ram@;
        let s2 = s1 + m.vram@;
        let s3 = s2 + m.palette_ram@;
        let s4 = s3 + enc_u8(m.selected_prg);
        let s5 = s4 + enc_u8(m.outer_chr);
        let s6 = s5 + enc_u8(m.inner_chr);
        let s7 = s6 + enc_u16(m.last_fetch_addr);
        let s8 = s7 + enc_u8(mirror_code(m.mirroring));
        let s9 = s8 + controllers_bytes(m.controllers);
        lemma_stored_split(d, p, s8, controllers_bytes(m.controllers));
        lemma_stored_split(d, p, s7, enc_u8(mirror_code(m.mirroring)));
        lemma_stored_split(d, p, s6, enc_u16(m.last_fetch_addr));
        lemma_stored_split(d, p, s5, enc_u8(m.inner_chr));
        lemma_stored_split(d, p, s4, enc_u8(m.outer_chr));
        lemma_stored_split(d, p, s3, enc_u8(m.selected_prg));
        lemma_stored_split(d, p, s2, m.palette_ram@);
        lemma_stored_split(d, p, s1, m.vram@);
        lemma_stored_split(d, p, s0, m.chr_ram@);
        lemma_stored_u8(d, (p + CPU_RAM_SIZE + CHR_RAM_SIZE + VRAM_SIZE + PALETTE_SIZE), m.selected_prg);
        lemma_stored_u8(d, (p + CPU_RAM_SIZE + CHR_RAM_SIZE + VRAM_SIZE + PALETTE_SIZE + 1), m.outer_chr);
        lemma_stored_u8(d, (p + CPU_RAM_SIZE + CHR_RAM_SIZE + VRAM_SIZE + PALETTE_SIZE + 2), m.inner_chr);
        lemma_stored_u16(d, (p + CPU_RAM_SIZE + CHR_RAM_SIZE + VRAM_SIZE + PALETTE_SIZE + 3), m.last_fetch_addr);
        lemma_stored_u8(d, (p + CPU_RAM_SIZE + CHR_RAM_SIZE + VRAM_SIZE + PALETTE_SIZE + 5), mirror_code(m.mirroring));
        lemma_mirror_code_roundtrip(m.mirroring);
        lemma_stored_controllers(d, (p + CPU_RAM_SIZE + CHR_RAM_SIZE + VRAM_SIZE + PALETTE_SIZE + 6), m.controllers);
        if n.loaded_from(d, p) {
            assert(n.controllers@ =~= m.controllers@);
        }
    }
}

} // verus!
