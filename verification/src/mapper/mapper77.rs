//! Irem 74HC161/32 board (mapper 77): a 32KB PRG bank and a 2KB CHR ROM bank
//! at $0000 selected by one register with bus conflicts, 6KB of CHR RAM at
//! $0800-$1FFF, and optional four-screen nametable RAM.

use vstd::prelude::*;
use crate::bus::{NametableMirror, CPU_RAM_SIZE, VRAM_SIZE, PALETTE_SIZE, RESET_TARGET_ADDR, spec_mirroring_from_flags, mirroring_from_flags, nt_offset, mirror_nametable_addr, palette_slot, palette_index, word, make_word};
use crate::ppu_bus::{zeroed, filled};
use crate::controller::Controller;
use crate::mapper::common::{new_controllers, copied_into, min_len, copy_vec_to_front, copy_bank_to_front};

use crate::savestate::{SavestateWriter, SavestateReader, StateError, enc_u8, stored_at, lemma_stored_split, lemma_stored_u8};
use crate::controller::{controllers_bytes, controller_at, save_controllers, take_controllers, lemma_stored_controllers, CONTROLLER_STATE_LEN};
use crate::ppu_bus::{mirror_code, mirror_from_code, mirroring_from_code, save_mirroring, lemma_mirror_code_roundtrip};

verus! {

pub const PRG_BANK_SIZE: usize = 0x8000;
pub const CHR_BANK_SIZE: usize = 0x0800;
pub const CHR_RAM_SIZE: usize = 0x1800;
pub const FOUR_SCREEN_VRAM_SIZE: usize = 0x1000;

/// The 32KB PRG banks are consecutive pairs of the image's 16KB banks; an
/// odd last bank is paired with itself.
pub struct Mapper77 {
    pub controllers: [Controller; 2],
    pub prg_16k: Vec<[u8; 16384]>,
    pub chr_8k: Vec<[u8; 8192]>,
    pub selected_prg: u8,
    pub selected_chr: u8,
    pub mirroring: NametableMirror,
    pub four_screen: bool,
    pub chr_ram: Vec<u8>,
    pub vram: Vec<u8>,
    pub cpu_ram: Vec<u8>,
    pub palette_ram: Vec<u8>,
}

/// Byte `off` (below $8000) of 32KB bank `bank` built from 16KB banks.
pub open spec fn bank32_byte(prg: Seq<[u8; 16384]>, bank: int, off: int) -> u8 {
    if off < 0x4000 {
        prg[2 * bank][off]
    } else {
        let hi = if 2 * bank + 1 < prg.len() { 2 * bank + 1 } else { 2 * bank };
        prg[hi][off - 0x4000]
    }
}

/// Number of 32KB banks.
pub open spec fn bank32_count(prg: Seq<[u8; 16384]>) -> int {
    (prg.len() as int + 1) / 2
}

impl Mapper77 {
    pub open spec fn wf(&self) -> bool {
        &&& self.cpu_ram@.len() == CPU_RAM_SIZE
        &&& self.chr_ram@.len() == CHR_RAM_SIZE
        &&& self.vram@.len() == (if self.four_screen { FOUR_SCREEN_VRAM_SIZE } else { VRAM_SIZE })
        &&& self.palette_ram@.len() == PALETTE_SIZE
        &&& self.prg_16k@.len() + 1 <= usize::MAX
        &&& 4 * self.chr_8k@.len() <= usize::MAX
    }

    pub open spec fn spec_prg_read(&self, addr: u16) -> u8 {
        let n = bank32_count(self.prg_16k@);
        if n == 0 { 0 } else { bank32_byte(self.prg_16k@, self.selected_prg as int % n, (addr as int) % 0x8000) }
    }

    pub open spec fn spec_cpu_read(&self, addr: u16) -> u8 {
        if addr <= 0x1FFF {
            self.cpu_ram@[(addr as int) % 0x800]
        } else if addr >= 0x8000 {
            self.spec_prg_read(addr)
        } else {
            0
        }
    }

    pub open spec fn spec_nt_index(&self, addr: u16) -> int {
        if self.four_screen { (addr as int) % 0x1000 } else { nt_offset(addr, self.mirroring) }
    }

    pub open spec fn spec_ppu_read(&self, addr: u16) -> u8 {
        if addr <= 0x07FF {
            let n = 4 * self.chr_8k@.len();
            if n == 0 {
                0
            } else {
                let b = self.selected_chr as int % n as int;
                self.chr_8k@[b / 4][(b % 4) * 2048 + addr as int]
            }
        } else if addr <= 0x1FFF {
            self.chr_ram@[addr - 0x0800]
        } else if addr <= 0x3EFF {
            self.vram@[self.spec_nt_index(addr)]
        } else if addr <= 0x3FFF {
            self.palette_ram@[palette_slot(addr)]
        } else {
            0
        }
    }

    /// Flags 6 bit 3 asks for four-screen nametable RAM.
    pub fn new(flags: u8, prg_banks_16k: Vec<[u8; 16384]>, chr_banks_8k: Vec<[u8; 8192]>) -> (m: Mapper77)
        requires
            prg_banks_16k@.len() + 1 <= usize::MAX,
            4 * chr_banks_8k@.len() <= usize::MAX,
        ensures
            m.wf(),
            m.prg_16k@ == prg_banks_16k@,
            m.chr_8k@ == chr_banks_8k@,
            m.selected_prg == 0 && m.selected_chr == 0,
            m.mirroring == spec_mirroring_from_flags(flags),
            m.four_screen == (flags & 0x08 != 0),
            m.chr_ram@ == Seq::new(CHR_RAM_SIZE as nat, |i: int| 0u8),
            m.vram@ == Seq::new(m.vram@.len(), |i: int| 0u8),
            m.cpu_ram@ == Seq::new(CPU_RAM_SIZE as nat, |i: int| 0u8),
            m.palette_ram@ == Seq::new(PALETTE_SIZE as nat, |i: int| 0x0Fu8),
    {
        let four_screen = flags & 0x08 != 0;
        let vram_size = if four_screen { FOUR_SCREEN_VRAM_SIZE } else { VRAM_SIZE };
        Mapper77 {
            controllers: new_controllers(),
            prg_16k: prg_banks_16k,
            chr_8k: chr_banks_8k,
            selected_prg: 0,
            selected_chr: 0,
            mirroring: mirroring_from_flags(flags),
            four_screen,
            chr_ram: zeroed(CHR_RAM_SIZE),
            vram: zeroed(vram_size),
            cpu_ram: zeroed(CPU_RAM_SIZE),
            palette_ram: filled(PALETTE_SIZE, 0x0F),
        }
    }

    fn prg_read(&self, addr: u16) -> (r: u8)
        requires
            self.wf(),
        ensures
            r == self.spec_prg_read(addr),
    {
        let n = (self.prg_16k.len() + 1) / 2;
        if n == 0 {
            return 0;
        }
        let bank = self.selected_prg as usize % n;
        let off = (addr % 0x8000) as usize;
        if off < 0x4000 {
            self.prg_16k[2 * bank][off]
        } else {
            let hi = if 2 * bank + 1 < self.prg_16k.len() { 2 * bank + 1 } else { 2 * bank };
            self.prg_16k[hi][off - 0x4000]
        }
    }

    fn nt_addr(&self, addr: u16) -> (r: usize)
        requires
            self.wf(),
        ensures
            r as int == self.spec_nt_index(addr),
            r < self.vram@.len(),
    {
        if self.four_screen {
            (addr % 0x1000) as usize
        } else {
            mirror_nametable_addr(addr, self.mirroring) as usize
        }
    }

    pub fn cpu_peek(&self, addr: u16) -> (r: u8)
        requires
            self.wf(),
        ensures
            r == self.spec_cpu_read(addr),
    {
        if addr <= 0x1FFF {
            self.cpu_ram[(addr % 0x800) as usize]
        } else if addr >= 0x8000 {
            self.prg_read(addr)
        } else {
            0
        }
    }

    pub fn cpu_read(&self, addr: u16) -> (r: u8)
        requires
            self.wf(),
        ensures
            r == self.spec_cpu_read(addr),
    {
        self.cpu_peek(addr)
    }

    /// A write to $8000-$FFFF is ANDed with the ROM byte under it; the low
    /// nibble selects the PRG bank, the high nibble the CHR bank.
    pub fn cpu_write(&mut self, addr: u16, value: u8)
        requires
            old(self).wf(),
        ensures
            final(self).wf(),
            addr <= 0x1FFF ==> final(self).cpu_ram@ == old(self).cpu_ram@.update((addr as int) % 0x800, value),
            addr > 0x1FFF ==> final(self).cpu_ram == old(self).cpu_ram,
            addr >= 0x8000 ==> ({
                let v = value & old(self).spec_prg_read(addr);
                &&& final(self).selected_prg == v & 0x0F
                &&& final(self).selected_chr == (v >> 4u8) & 0x0F
            }),
            addr < 0x8000 ==> final(self).selected_prg == old(self).selected_prg
                && final(self).selected_chr == old(self).selected_chr,
            final(self).prg_16k == old(self).prg_16k,
            final(self).chr_8k == old(self).chr_8k,
            final(self).chr_ram == old(self).chr_ram,
            final(self).vram == old(self).vram,
            final(self).palette_ram == old(self).palette_ram,
            final(self).mirroring == old(self).mirroring,
            final(self).four_screen == old(self).four_screen,
            final(self).controllers == old(self).controllers,
    {
        if addr <= 0x1FFF {
            self.cpu_ram.set((addr % 0x800) as usize, value);
        } else if addr >= 0x8000 {
            let v = value & self.prg_read(addr);
            self.selected_prg = v & 0x0F;
            self.selected_chr = (v >> 4) & 0x0F;
        }
    }

    pub fn ppu_read(&self, addr: u16) -> (r: u8)
        requires
            self.wf(),
        ensures
            r == self.spec_ppu_read(addr),
    {
        if addr <= 0x07FF {
            let n = 4 * self.chr_8k.len();
            if n == 0 {
                return 0;
            }
            let b = self.selected_chr as usize % n;
            self.chr_8k[b / 4][(b % 4) * 2048 + addr as usize]
        } else if addr <= 0x1FFF {
            self.chr_ram[(addr - 0x0800) as usize]
        } else if addr <= 0x3EFF {
            self.vram[self.nt_addr(addr)]
        } else if addr <= 0x3FFF {
            self.palette_ram[palette_index(addr)]
        } else {
            0
        }
    }

    /// The CHR ROM window at $0000-$07FF ignores writes.
    pub fn ppu_write(&mut self, addr: u16, value: u8)
        requires
            old(self).wf(),
        ensures
            final(self).wf(),
            0x0800 <= addr <= 0x1FFF ==> final(self).chr_ram@ == old(self).chr_ram@.update(addr - 0x0800, value),
            !(0x0800 <= addr <= 0x1FFF) ==> final(self).chr_ram == old(self).chr_ram,
            0x2000 <= addr <= 0x3EFF ==> final(self).vram@ == old(self).vram@.update(old(self).spec_nt_index(addr), value),
            !(0x2000 <= addr <= 0x3EFF) ==> final(self).vram == old(self).vram,
            0x3F00 <= addr <= 0x3FFF ==> final(self).palette_ram@ == old(self).palette_ram@.update(palette_slot(addr), value),
            !(0x3F00 <= addr <= 0x3FFF) ==> final(self).palette_ram == old(self).palette_ram,
            final(self).cpu_ram == old(self).cpu_ram,
            final(self).selected_prg == old(self).selected_prg,
            final(self).selected_chr == old(self).selected_chr,
            final(self).mirroring == old(self).mirroring,
            final(self).four_screen == old(self).four_screen,
            final(self).prg_16k == old(self).prg_16k,
            final(self).chr_8k == old(self).chr_8k,
    {
        if 0x0800 <= addr && addr <= 0x1FFF {
            self.chr_ram.set((addr - 0x0800) as usize, value);
        } else if 0x2000 <= addr && addr <= 0x3EFF {
            let i = self.nt_addr(addr);
            self.vram.set(i, value);
        } else if 0x3F00 <= addr && addr <= 0x3FFF {
            let i = palette_index(addr);
            self.palette_ram.set(i, value);
        }
    }

    pub fn code_start(&self) -> (r: u16)
        requires
            self.wf(),
        ensures
            r == word(self.spec_cpu_read(RESET_TARGET_ADDR), self.spec_cpu_read(0xFFFD)),
    {
        make_word(self.cpu_peek(RESET_TARGET_ADDR), self.cpu_peek(RESET_TARGET_ADDR + 1))
    }

    pub fn poll_irq(&self) -> (r: bool)
        ensures
            !r,
    {
        false
    }

    pub fn mapper_id(&self) -> (r: u8)
        ensures
            r == 77,
    {
        77
    }
}

impl Mapper77 {
    /// The bytes `save_state` appends.
    pub open spec fn state_bytes(&self) -> Seq<u8> {
        self.cpu_ram@
            + self.chr_ram@
            + self.vram@
            + self.palette_ram@
            + enc_u8(self.selected_prg)
            + enc_u8(self.selected_chr)
            + enc_u8(mirror_code(self.mirroring))
            + controllers_bytes(self.controllers)
    }

    /// Length of the saved state.
    pub open spec fn state_len(&self) -> nat {
        (CPU_RAM_SIZE + CHR_RAM_SIZE + self.vram@.len() + PALETTE_SIZE + 2 * CONTROLLER_STATE_LEN + 3) as nat
    }

    /// Every register that the state stores in fewer bits than it is held in
    /// fits in those bits.
    pub open spec fn fits(&self) -> bool {
        true
    }

    /// The stored bytes at `p` hold a state that this cartridge can take.
    pub open spec fn state_valid(&self, d: Seq<u8>, p: int) -> bool {
        &&& mirror_from_code(d[(p + CPU_RAM_SIZE + CHR_RAM_SIZE + self.vram@.len() + PALETTE_SIZE + 2)]) is Some
    }

    /// What `load_state` answers for the bytes at `p`.
    pub open spec fn load_outcome(&self, d: Seq<u8>, p: int) -> Result<(), StateError> {
        if p + self.state_len() > d.len() {
            Err(StateError::UnexpectedEof)
        } else if !self.state_valid(d, p) {
            Err(StateError::InvalidValue)
        } else {
            Ok(())
        }
    }

    /// Every saved field holds what the bytes at `p` store.
    pub open spec fn loaded_from(&self, d: Seq<u8>, p: int) -> bool {
        &&& self.cpu_ram@ == d.subrange(p, p + CPU_RAM_SIZE)
        &&& self.chr_ram@ == d.subrange((p + CPU_RAM_SIZE), (p + CPU_RAM_SIZE) + CHR_RAM_SIZE)
        &&& self.vram@ == d.subrange((p + CPU_RAM_SIZE + CHR_RAM_SIZE), (p + CPU_RAM_SIZE + CHR_RAM_SIZE) + self.vram@.len())
        &&& self.palette_ram@ == d.subrange((p + CPU_RAM_SIZE + CHR_RAM_SIZE + self.vram@.len()), (p + CPU_RAM_SIZE + CHR_RAM_SIZE + self.vram@.len()) + PALETTE_SIZE)
        &&& self.selected_prg == d[(p + CPU_RAM_SIZE + CHR_RAM_SIZE + self.vram@.len() + PALETTE_SIZE)]
        &&& self.selected_chr == d[(p + CPU_RAM_SIZE + CHR_RAM_SIZE + self.vram@.len() + PALETTE_SIZE + 1)]
        &&& self.mirroring == mirror_from_code(d[(p + CPU_RAM_SIZE + CHR_RAM_SIZE + self.vram@.len() + PALETTE_SIZE + 2)])->0
        &&& self.controllers@[0] == controller_at(d, (p + CPU_RAM_SIZE + CHR_RAM_SIZE + self.vram@.len() + PALETTE_SIZE + 3))
        &&& self.controllers@[1] == controller_at(d, (p + CPU_RAM_SIZE + CHR_RAM_SIZE + self.vram@.len() + PALETTE_SIZE + 3) + CONTROLLER_STATE_LEN)
    }

    /// The two agree on every saved field.
    pub open spec fn same_state(&self, other: &Self) -> bool {
        &&& self.cpu_ram@ == other.cpu_ram@
        &&& self.chr_ram@ == other.chr_ram@
        &&& self.vram@ == other.vram@
        &&& self.palette_ram@ == other.palette_ram@
        &&& self.selected_prg == other.selected_prg
        &&& self.selected_chr == other.selected_chr
        &&& self.mirroring == other.mirroring
        &&& self.controllers@ == other.controllers@
    }

    /// The two agree on every field that the state does not store.
    pub open spec fn keeps_unsaved(&self, other: &Self) -> bool {
        &&& self.prg_16k == other.prg_16k
        &&& self.chr_8k == other.chr_8k
        &&& self.four_screen == other.four_screen
    }

    /// The two come from cartridges of the same shape.
    pub open spec fn same_layout(&self, other: &Self) -> bool {
        &&& self.vram@.len() == other.vram@.len()
    }

    #[verifier::spinoff_prover]
    pub fn save_state(&self, w: &mut SavestateWriter)
        ensures
            final(w).buf@ == old(w).buf@ + self.state_bytes(),
    {
        w.write_bytes(self.cpu_ram.as_slice());
        w.write_bytes(self.chr_ram.as_slice());
        w.write_bytes(self.vram.as_slice());
        w.write_bytes(self.palette_ram.as_slice());
        w.write_u8(self.selected_prg);
        w.write_u8(self.selected_chr);
        save_mirroring(w, self.mirroring);
        save_controllers(w, &self.controllers);
        assert(w.buf@ =~= old(w).buf@ + self.state_bytes());
    }

    /// Restores a state written by `save_state`. Nothing changes unless the
    /// whole state is there and holds values this cartridge can take.
    #[verifier::spinoff_prover]
    pub fn load_state(&mut self, r: &mut SavestateReader) -> (res: Result<(), StateError>)
        requires
            old(self).wf(),
            old(r).wf(),
        ensures
            final(r).wf(),
            final(r).data@ == old(r).data@,
            res == old(self).load_outcome(old(r).data@, old(r).pos as int),
            res is Err ==> *final(self) == *old(self) && final(r).pos == old(r).pos,
            res is Ok ==> final(self).wf() && final(self).loaded_from(old(r).data@, old(r).pos as int)
                && final(self).keeps_unsaved(&*old(self)) && final(self).same_layout(&*old(self))
                && final(r).pos == old(r).pos + old(self).state_len(),
    {
        let ghost d = r.data@;
        let ghost p = r.pos as int;
        let start = r.pos;
        if r.remaining_len() < CPU_RAM_SIZE + CHR_RAM_SIZE + self.vram.len() + PALETTE_SIZE + 2 * CONTROLLER_STATE_LEN + 3 {
            return Err(StateError::UnexpectedEof);
        }
        let cpu_ram = r.take_bytes(CPU_RAM_SIZE);
        let chr_ram = r.take_bytes(CHR_RAM_SIZE);
        let vram = r.take_bytes(self.vram.len());
        let palette_ram = r.take_bytes(PALETTE_SIZE);
        let selected_prg = r.take_u8();
        let selected_chr = r.take_u8();
        let mirroring_code = r.take_u8();
        let controllers = take_controllers(r);
        let mirroring = match mirroring_from_code(mirroring_code) {
            Some(m) => m,
            None => {
                r.rewind(start);
                return Err(StateError::InvalidValue);
            },
        };
        self.cpu_ram = cpu_ram;
        self.chr_ram = chr_ram;
        self.vram = vram;
        self.palette_ram = palette_ram;
        self.selected_prg = selected_prg;
        self.selected_chr = selected_chr;
        self.mirroring = mirroring;
        self.controllers = controllers;
        Ok(())
    }

    /// Saving a state and loading it into a cartridge of the same shape
    /// succeeds and restores every saved field.
    #[verifier::spinoff_prover]
    pub proof fn lemma_state_roundtrip(o: Self, m: Self, n: Self, d: Seq<u8>, p: int)
        requires
            o.wf(),
            m.wf(),
            m.fits(),
            o.same_layout(&m),
            n.same_layout(&m),
            stored_at(d, p, m.state_bytes()),
        ensures
            o.load_outcome(d, p) == Ok::<(), StateError>(()),
            n.loaded_from(d, p) ==> n.same_state(&m),
    {
        let s0 = m.cpu_ram@;
        let s1 = s0 + m.chr_ram@;
        let s2 = s1 + m.vram@;
        let s3 = s2 + m.palette_ram@;
        let s4 = s3 + enc_u8(m.selected_prg);
        let s5 = s4 + enc_u8(m.selected_chr);
        let s6 = s5 + enc_u8(mirror_code(m.mirroring));
        let s7 = s6 + controllers_bytes(m.controllers);
        lemma_stored_split(d, p, s6, controllers_bytes(m.controllers));
        lemma_stored_split(d, p, s5, enc_u8(mirror_code(m.mirroring)));
        lemma_stored_split(d, p, s4, enc_u8(m.selected_chr));
        lemma_stored_split(d, p, s3, enc_u8(m.selected_prg));
        lemma_stored_split(d, p, s2, m.palette_ram@);
        lemma_stored_split(d, p, s1, m.vram@);
        lemma_stored_split(d, p, s0, m.chr_ram@);
        lemma_stored_u8(d, (p + CPU_RAM_SIZE + CHR_RAM_SIZE + m.vram@.len() + PALETTE_SIZE), m.selected_prg);
        lemma_stored_u8(d, (p + CPU_RAM_SIZE + CHR_RAM_SIZE + m.vram@.len() + PALETTE_SIZE + 1), m.selected_chr);
        lemma_stored_u8(d, (p + CPU_RAM_SIZE + CHR_RAM_SIZE + m.vram@.len() + PALETTE_SIZE + 2), mirror_code(m.mirroring));
        lemma_mirror_code_roundtrip(m.mirroring);
        lemma_stored_controllers(d, (p + CPU_RAM_SIZE + CHR_RAM_SIZE + m.vram@.len() + PALETTE_SIZE + 3), m.controllers);
        if n.loaded_from(d, p) {
            assert(n.controllers@ =~= m.controllers@);
        }
    }
}

impl Mapper77 {
    /// Where a bulk copy of `size` bytes from `addr` reads: the selected 2KB
    /// CHR ROM bank up to its end ($0000-$07FF), the CHR RAM up to its end
    /// ($0800-$1FFF), or the nametable RAM up to its end.
    pub open spec fn copy_run(&self, addr: u16, size: int) -> Option<(Seq<u8>, int, int)> {
        if addr <= 0x07FF {
            let n = 4 * self.chr_8k@.len();
            if n == 0 {
                None
            } else {
                let b = self.selected_chr as int % n as int;
                let o = addr as int;
                Some((self.chr_8k@[b / 4]@, (b % 4) * 2048 + o, min_len(size, CHR_BANK_SIZE - o)))
            }
        } else if addr <= 0x1FFF {
            let o = addr - 0x0800;
            Some((self.chr_ram@, o, min_len(size, CHR_RAM_SIZE - o)))
        } else if addr <= 0x3EFF {
            let v = self.spec_nt_index(addr);
            Some((self.vram@, v, min_len(size, self.vram@.len() - v)))
        } else {
            None
        }
    }

    /// Copies up to `size` bytes of PPU memory from `addr` to the front of
    /// `dest`, from one run of the memory behind that address.
    pub fn ppu_copy(&self, addr: u16, dest: &mut Vec<u8>, size: usize)
        requires
            self.wf(),
            size <= old(dest)@.len(),
        ensures
            match self.copy_run(addr, size as int) {
                Some((src, off, n)) => final(dest)@ == copied_into(old(dest)@, src, off, n),
                None => final(dest)@ == old(dest)@,
            },
    {
        if addr <= 0x07FF {
            let n4 = 4 * self.chr_8k.len();
            if n4 > 0 {
                let b = self.selected_chr as usize % n4;
                let o = addr as usize;
                let n = if size < CHR_BANK_SIZE - o { size } else { CHR_BANK_SIZE - o };
                copy_bank_to_front(dest, &self.chr_8k[b / 4], (b % 4) * 2048 + o, n);
            }
        } else if addr <= 0x1FFF {
            let o = (addr - 0x0800) as usize;
            let n = if size < CHR_RAM_SIZE - o { size } else { CHR_RAM_SIZE - o };
            copy_vec_to_front(dest, &self.chr_ram, o, n);
        } else if addr <= 0x3EFF {
            let v = self.nt_addr(addr);
            let len = self.vram.len();
            let n = if size < len - v { size } else { len - v };
            copy_vec_to_front(dest, &self.vram, v, n);
        }
    }
}

} // verus!
