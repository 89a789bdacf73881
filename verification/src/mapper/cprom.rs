//! CPROM (mapper 13): 32KB of fixed PRG ROM and 16KB of CHR RAM, whose
//! first 4KB page is fixed at $0000 and whose page at $1000 is selected,
//! with bus conflicts, by writes to $8000-$FFFF.

use vstd::prelude::*;
use crate::bus::{NametableMirror, CPU_RAM_SIZE, VRAM_SIZE, PALETTE_SIZE, RESET_TARGET_ADDR, spec_mirroring_from_flags, mirroring_from_flags, nt_offset, mirror_nametable_addr, palette_slot, palette_index, word, make_word};
use crate::ppu_bus::{zeroed, filled};
use crate::controller::Controller;
use crate::mapper::common::{new_controllers, copied_into, min_len, copy_vec_to_front};
use crate::mapper::mapper77::bank32_byte;

use crate::savestate::{SavestateWriter, SavestateReader, StateError, enc_u8, stored_at, lemma_stored_split, lemma_stored_u8};
use crate::controller::{controllers_bytes, controller_at, save_controllers, take_controllers, lemma_stored_controllers, CONTROLLER_STATE_LEN};
use crate::ppu_bus::{mirror_code, mirror_from_code, mirroring_from_code, save_mirroring, lemma_mirror_code_roundtrip};

verus! {

pub const PRG_SIZE: usize = 0x8000;
pub const CHR_RAM_SIZE: usize = 0x4000;
pub const CHR_PAGE_SIZE: usize = 0x1000;

/// The 32KB of PRG are the image's first two 16KB banks (the first one
/// twice if there is only one; zeros if there is none).
pub struct CpromMapper {
    pub controllers: [Controller; 2],
    pub prg_16k: Vec<[u8; 16384]>,
    pub chr_ram: Vec<u8>,
    pub selected_chr: u8,
    pub mirroring: NametableMirror,
    pub vram: Vec<u8>,
    pub cpu_ram: Vec<u8>,
    pub palette_ram: Vec<u8>,
}

impl CpromMapper {
    pub open spec fn wf(&self) -> bool {
        &&& self.cpu_ram@.len() == CPU_RAM_SIZE
        &&& self.chr_ram@.len() == CHR_RAM_SIZE
        &&& self.vram@.len() == VRAM_SIZE
        &&& self.palette_ram@.len() == PALETTE_SIZE
        &&& self.selected_chr < 4
    }

    /// Byte `off` (below $8000) of the fixed PRG.
    pub open spec fn spec_prg_byte(&self, off: int) -> u8 {
        if self.prg_16k@.len() == 0 { 0 } else { bank32_byte(self.prg_16k@, 0, off) }
    }

    pub open spec fn spec_cpu_read(&self, addr: u16) -> u8 {
        if addr <= 0x1FFF {
            self.cpu_ram@[(addr as int) % 0x800]
        } else if addr >= 0x8000 {
            self.spec_prg_byte((addr as int) % 0x8000)
        } else {
            0
        }
    }

    pub open spec fn spec_chr_addr(&self, addr: u16) -> int {
        if addr < 0x1000 { addr as int } else { self.selected_chr as int * 0x1000 + (addr as int) % 0x1000 }
    }

    pub open spec fn spec_ppu_read(&self, addr: u16) -> u8 {
        if addr <= 0x1FFF {
            self.chr_ram@[self.spec_chr_addr(addr)]
        } else if addr <= 0x3EFF {
            self.vram@[nt_offset(addr, self.mirroring)]
        } else if addr <= 0x3FFF {
            self.palette_ram@[palette_slot(addr)]
        } else {
            0
        }
    }

    pub fn new(flags: u8, prg_banks_16k: Vec<[u8; 16384]>) -> (m: CpromMapper)
        ensures
            m.wf(),
            m.prg_16k@ == prg_banks_16k@,
            m.selected_chr == 0,
            m.mirroring == spec_mirroring_from_flags(flags),
            m.chr_ram@ == Seq::new(CHR_RAM_SIZE as nat, |i: int| 0u8),
            m.vram@ == Seq::new(VRAM_SIZE as nat, |i: int| 0u8),
            m.cpu_ram@ == Seq::new(CPU_RAM_SIZE as nat, |i: int| 0u8),
            m.palette_ram@ == Seq::new(PALETTE_SIZE as nat, |i: int| 0x0Fu8),
    {
        CpromMapper {
            controllers: new_controllers(),
            prg_16k: prg_banks_16k,
            chr_ram: zeroed(CHR_RAM_SIZE),
            selected_chr: 0,
            mirroring: mirroring_from_flags(flags),
            vram: zeroed(VRAM_SIZE),
            cpu_ram: zeroed(CPU_RAM_SIZE),
            palette_ram: filled(PALETTE_SIZE, 0x0F),
        }
    }

    fn prg_byte(&self, off: usize) -> (r: u8)
        requires
            off < PRG_SIZE,
        ensures
            r == self.spec_prg_byte(off as int),
    {
        if self.prg_16k.len() == 0 {
            0
        } else if off < 0x4000 {
            self.prg_16k[0][off]
        } else {
            let hi = if 1 < self.prg_16k.len() { 1 } else { 0 };
            self.prg_16k[hi][off - 0x4000]
        }
    }

    fn chr_addr(&self, addr: u16) -> (r: usize)
        requires
            self.wf(),
            addr <= 0x1FFF,
        ensures
            r as int == self.spec_chr_addr(addr),
            r < CHR_RAM_SIZE,
    {
        if addr < 0x1000 {
            addr as usize
        } else {
            self.selected_chr as usize * CHR_PAGE_SIZE + (addr % 0x1000) as usize
        }
    }

    pub fn cpu_peek(&self, addr: u16) -> (r: u8)
        requires
            self.wf(),
        ensures
            r == self.spec_cpu_read(addr),
    {
        if addr <= 0x1FFF {
            self.cpu_ram[(addr % 0x800) as usize]
        } else if addr >= 0x8000 {
            self.prg_byte((addr % 0x8000) as usize)
        } else {
            0
        }
    }

    pub fn cpu_read(&self, addr: u16) -> (r: u8)
        requires
            self.wf(),
        ensures
            r == self.spec_cpu_read(addr),
    {
        self.cpu_peek(addr)
    }

    /// A write to $8000-$FFFF, ANDed with the ROM byte under it, selects the
    /// CHR page at $1000 from its low two bits.
    pub fn cpu_write(&mut self, addr: u16, value: u8)
        requires
            old(self).wf(),
        ensures
            final(self).wf(),
            addr <= 0x1FFF ==> final(self).cpu_ram@ == old(self).cpu_ram@.update((addr as int) % 0x800, value),
            addr > 0x1FFF ==> final(self).cpu_ram == old(self).cpu_ram,
            final(self).selected_chr == (if addr >= 0x8000 {
                value & old(self).spec_prg_byte((addr as int) % 0x8000) & 3
            } else {
                old(self).selected_chr
            }),
            final(self).prg_16k == old(self).prg_16k,
            final(self).chr_ram == old(self).chr_ram,
            final(self).vram == old(self).vram,
            final(self).palette_ram == old(self).palette_ram,
            final(self).mirroring == old(self).mirroring,
            final(self).controllers == old(self).controllers,
    {
        if addr <= 0x1FFF {
            self.cpu_ram.set((addr % 0x800) as usize, value);
        } else if addr >= 0x8000 {
            let v = value & self.prg_byte((addr % 0x8000) as usize);
            assert(v & 3 < 4) by (bit_vector);
            self.selected_chr = v & 0x03;
        }
    }

    pub fn ppu_read(&self, addr: u16) -> (r: u8)
        requires
            self.wf(),
        ensures
            r == self.spec_ppu_read(addr),
    {
        if addr <= 0x1FFF {
            self.chr_ram[self.chr_addr(addr)]
        } else if addr <= 0x3EFF {
            self.vram[mirror_nametable_addr(addr, self.mirroring) as usize]
        } else if addr <= 0x3FFF {
            self.palette_ram[palette_index(addr)]
        } else {
            0
        }
    }

    /// CHR RAM through the current page, nametables and palette.
    pub fn ppu_write(&mut self, addr: u16, value: u8)
        requires
            old(self).wf(),
        ensures
            final(self).wf(),
            addr <= 0x1FFF ==> final(self).chr_ram@ == old(self).chr_ram@.update(old(self).spec_chr_addr(addr), value),
            addr > 0x1FFF ==> final(self).chr_ram == old(self).chr_ram,
            0x2000 <= addr <= 0x3EFF ==> final(self).vram@ == old(self).vram@.update(nt_offset(addr, old(self).mirroring), value),
            !(0x2000 <= addr <= 0x3EFF) ==> final(self).vram == old(self).vram,
            0x3F00 <= addr <= 0x3FFF ==> final(self).palette_ram@ == old(self).palette_ram@.update(palette_slot(addr), value),
            !(0x3F00 <= addr <= 0x3FFF) ==> final(self).palette_ram == old(self).palette_ram,
            final(self).cpu_ram == old(self).cpu_ram,
            final(self).selected_chr == old(self).selected_chr,
            final(self).mirroring == old(self).mirroring,
            final(self).prg_16k == old(self).prg_16k,
    {
        if addr <= 0x1FFF {
            let a = self.chr_addr(addr);
            self.chr_ram.set(a, value);
        } else if addr <= 0x3EFF {
            let i = mirror_nametable_addr(addr, self.mirroring) as usize;
            self.vram.set(i, value);
        } else if addr <= 0x3FFF {
            let i = palette_index(addr);
            self.palette_ram.set(i, value);
        }
    }

    pub fn code_start(&self) -> (r: u16)
        requires
            self.wf(),
        ensures
            r == word(self.spec_cpu_read(RESET_TARGET_ADDR), self.spec_cpu_read(0xFFFD)),
    {
        make_word(self.cpu_peek(RESET_TARGET_ADDR), self.cpu_peek(RESET_TARGET_ADDR + 1))
    }

    pub fn poll_irq(&self) -> (r: bool)
        ensures
            !r,
    {
        false
    }

    pub fn mapper_id(&self) -> (r: u8)
        ensures
            r == 13,
    {
        13
    }
}

impl CpromMapper {
    /// The bytes `save_state` appends.
    pub open spec fn state_bytes(&self) -> Seq<u8> {
        self.cpu_ram@
            + self.chr_ram@
            + self.vram@
            + self.palette_ram@
            + enc_u8(self.selected_chr)
            + enc_u8(mirror_code(self.mirroring))
            + controllers_bytes(self.controllers)
    }

    /// Length of the saved state.
    pub open spec fn state_len(&self) -> nat {
        (CPU_RAM_SIZE + CHR_RAM_SIZE + VRAM_SIZE + PALETTE_SIZE + 2 * CONTROLLER_STATE_LEN + 2) as nat
    }

    /// Every register that the state stores in fewer bits than it is held in
    /// fits in those bits.
    pub open spec fn fits(&self) -> bool {
        true
    }

    /// The stored bytes at `p` hold a state that this cartridge can take.
    pub open spec fn state_valid(&self, d: Seq<u8>, p: int) -> bool {
        &&& (d[(p + CPU_RAM_SIZE + CHR_RAM_SIZE + VRAM_SIZE + PALETTE_SIZE)]) < 4
        &&& mirror_from_code(d[(p + CPU_RAM_SIZE + CHR_RAM_SIZE + VRAM_SIZE + PALETTE_SIZE + 1)]) is Some
    }

    /// What `load_state` answers for the bytes at `p`.
    pub open spec fn load_outcome(&self, d: Seq<u8>, p: int) -> Result<(), StateError> {
        if p + self.state_len() > d.len() {
            Err(StateError::UnexpectedEof)
        } else if !self.state_valid(d, p) {
            Err(StateError::InvalidValue)
        } else {
            Ok(())
        }
    }

    /// Every saved field holds what the bytes at `p` store.
    pub open spec fn loaded_from(&self, d: Seq<u8>, p: int) -> bool {
        &&& self.cpu_ram@ == d.subrange(p, p + CPU_RAM_SIZE)
        &&& self.chr_ram@ == d.subrange((p + CPU_RAM_SIZE), (p + CPU_RAM_SIZE) + CHR_RAM_SIZE)
        &&& self.vram@ == d.subrange((p + CPU_RAM_SIZE + CHR_RAM_SIZE), (p + CPU_RAM_SIZE + CHR_RAM_SIZE) + VRAM_SIZE)
        &&& self.palette_ram@ == d.subrange((p + CPU_RAM_SIZE + CHR_RAM_SIZE + VRAM_SIZE), (p + CPU_RAM_SIZE + CHR_RAM_SIZE + VRAM_SIZE) + PALETTE_SIZE)
        &&& self.selected_chr == d[(p + CPU_RAM_SIZE + CHR_RAM_SIZE + VRAM_SIZE + PALETTE_SIZE)]
        &&& self.mirroring == mirror_from_code(d[(p + CPU_RAM_SIZE + CHR_RAM_SIZE + VRAM_SIZE + PALETTE_SIZE + 1)])->0
        &&& self.controllers@[0] == controller_at(d, (p + CPU_RAM_SIZE + CHR_RAM_SIZE + VRAM_SIZE + PALETTE_SIZE + 2))
        &&& self.controllers@[1] == controller_at(d, (p + CPU_RAM_SIZE + CHR_RAM_SIZE + VRAM_SIZE + PALETTE_SIZE + 2) + CONTROLLER_STATE_LEN)
    }

    /// The two agree on every saved field.
    pub open spec fn same_state(&self, other: &Self) -> bool {
        &&& self.cpu_ram@ == other.cpu_ram@
        &&& self.chr_ram@ == other.chr_ram@
        &&& self.vram@ == other.vram@
        &&& self.palette_ram@ == other.palette_ram@
        &&& self.selected_chr == other.selected_chr
        &&& self.mirroring == other.mirroring
        &&& self.controllers@ == other.controllers@
    }

    /// The two agree on every field that the state does not store.
    pub open spec fn keeps_unsaved(&self, other: &Self) -> bool {
        &&& self.prg_16k == other.prg_16k
    }

    /// The two come from cartridges of the same shape.
    pub open spec fn same_layout(&self, other: &Self) -> bool {
        true
    }

    #[verifier::spinoff_prover]
    pub fn save_state(&self, w: &mut SavestateWriter)
        ensures
            final(w).buf@ == old(w).buf@ + self.state_bytes(),
    {
        w.write_bytes(self.cpu_ram.as_slice());
        w.write_bytes(self.chr_ram.as_slice());
        w.write_bytes(self.vram.as_slice());
        w.write_bytes(self.palette_ram.as_slice());
        w.write_u8(self.selected_chr);
        save_mirroring(w, self.mirroring);
        save_controllers(w, &self.controllers);
        assert(w.buf@ =~= old(w).buf@ + self.state_bytes());
    }

    /// Restores a state written by `save_state`. Nothing changes unless the
    /// whole state is there and holds values this cartridge can take.
    #[verifier::spinoff_prover]
    pub fn load_state(&mut self, r: &mut SavestateReader) -> (res: Result<(), StateError>)
        requires
            old(self).wf(),
            old(r).wf(),
        ensures
            final(r).wf(),
            final(r).data@ == old(r).data@,
            res == old(self).load_outcome(old(r).data@, old(r).pos as int),
            res is Err ==> *final(self) == *old(self) && final(r).pos == old(r).pos,
            res is Ok ==> final(self).wf() && final(self).loaded_from(old(r).data@, old(r).pos as int)
                && final(self).keeps_unsaved(&*old(self)) && final(self).same_layout(&*old(self))
                && final(r).pos == old(r).pos + old(self).state_len(),
    {
        let ghost d = r.data@;
        let ghost p = r.pos as int;
        let start = r.pos;
        if r.remaining_len() < CPU_RAM_SIZE + CHR_RAM_SIZE + VRAM_SIZE + PALETTE_SIZE + 2 * CONTROLLER_STATE_LEN + 2 {
            return Err(StateError::UnexpectedEof);
        }
        let cpu_ram = r.take_bytes(CPU_RAM_SIZE);
        let chr_ram = r.take_bytes(CHR_RAM_SIZE);
        let vram = r.take_bytes(VRAM_SIZE);
        let palette_ram = r.take_bytes(PALETTE_SIZE);
        let selected_chr = r.take_u8();
        let mirroring_code = r.take_u8();
        let controllers = take_controllers(r);
        let mirroring = match mirroring_from_code(mirroring_code) {
            Some(m) => m,
            None => {
                r.rewind(start);
                return Err(StateError::InvalidValue);
            },
        };
        if (selected_chr >= 4) {
            r.rewind(start);
            return Err(StateError::InvalidValue);
        }
        self.cpu_ram = cpu_ram;
        self.chr_ram = chr_ram;
        self.vram = vram;
        self.palette_ram = palette_ram;
        self.selected_chr = selected_chr;
        self.mirroring = mirroring;
        self.controllers = controllers;
        Ok(())
    }

    /// Saving a state and loading it into a cartridge of the same shape
    /// succeeds and restores every saved field.
    #[verifier::spinoff_prover]
    pub proof fn lemma_state_roundtrip(o: Self, m: Self, n: Self, d: Seq<u8>, p: int)
        requires
            o.wf(),
            m.wf(),
            m.fits(),
            o.same_layout(&m),
            n.same_layout(&m),
            stored_at(d, p, m.state_bytes()),
        ensures
            o.load_outcome(d, p) == Ok::<(), StateError>(()),
            n.loaded_from(d, p) ==> n.same_state(&m),
    {
        let s0 = m.cpu_ram@;
        let s1 = s0 + m.chr_ram@;
        let s2 = s1 + m.vram@;
        let s3 = s2 + m.palette_ram@;
        let s4 = s3 + enc_u8(m.selected_chr);
        let s5 = s4 + enc_u8(mirror_code(m.mirroring));
        let s6 = s5 + controllers_bytes(m.controllers);
        lemma_stored_split(d, p, s5, controllers_bytes(m.controllers));
        lemma_stored_split(d, p, s4, enc_u8(mirror_code(m.mirroring)));
        lemma_stored_split(d, p, s3, enc_u8(m.selected_chr));
        lemma_stored_split(d, p, s2, m.palette_ram@);
        lemma_stored_split(d, p, s1, m.vram@);
        lemma_stored_split(d, p, s0, m.chr_ram@);
        lemma_stored_u8(d, (p + CPU_RAM_SIZE + CHR_RAM_SIZE + VRAM_SIZE + PALETTE_SIZE), m.selected_chr);
        lemma_stored_u8(d, (p + CPU_RAM_SIZE + CHR_RAM_SIZE + VRAM_SIZE + PALETTE_SIZE + 1), mirror_code(m.mirroring));
        lemma_mirror_code_roundtrip(m.mirroring);
        lemma_stored_controllers(d, (p + CPU_RAM_SIZE + CHR_RAM_SIZE + VRAM_SIZE + PALETTE_SIZE + 2), m.controllers);
        if n.loaded_from(d, p) {
            assert(n.controllers@ =~= m.controllers@);
        }
    }
}

impl CpromMapper {
    /// Where a bulk copy of `size` bytes from `addr` reads: the CHR RAM from the page the address selects up to its end, or the
    /// nametable RAM up to its end.
    pub open spec fn copy_run(&self, addr: u16, size: int) -> Option<(Seq<u8>, int, int)> {
        if addr <= 0x1FFF {
            let o = self.spec_chr_addr(addr);
            Some((self.chr_ram@, o, min_len(size, CHR_RAM_SIZE - o)))
        } else if addr <= 0x3EFF {
            let v = nt_offset(addr, self.mirroring);
            Some((self.vram@, v, min_len(size, VRAM_SIZE - v)))
        } else {
            None
        }
    }

    /// Copies up to `size` bytes of PPU memory from `addr` to the front of
    /// `dest`, from one run of the memory behind that address.
    pub fn ppu_copy(&self, addr: u16, dest: &mut Vec<u8>, size: usize)
        requires
            self.wf(),
            size <= old(dest)@.len(),
        ensures
            match self.copy_run(addr, size as int) {
                Some((src, off, n)) => final(dest)@ == copied_into(old(dest)@, src, off, n),
                None => final(dest)@ == old(dest)@,
            },
    {
        if addr <= 0x1FFF {
            let o = self.chr_addr(addr);
            let n = if size < CHR_RAM_SIZE - o { size } else { CHR_RAM_SIZE - o };
            copy_vec_to_front(dest, &self.chr_ram, o, n);
        } else if addr <= 0x3EFF {
            let v = mirror_nametable_addr(addr, self.mirroring) as usize;
            let n = if size < VRAM_SIZE - v { size } else { VRAM_SIZE - v };
            copy_vec_to_front(dest, &self.vram, v, n);
        }
    }
}

} // verus!
