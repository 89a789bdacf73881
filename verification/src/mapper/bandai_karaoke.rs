//! Bandai Karaoke Studio (mapper 188): a 16KB PRG bank at $8000 from the
//! internal ROM or an expansion cartridge (open bus when it is absent), the
//! internal ROM's bank 7 fixed at $C000, and the microphone at $6000.

use vstd::prelude::*;
use crate::bus::{NametableMirror, CPU_RAM_SIZE, VRAM_SIZE, PALETTE_SIZE, RESET_TARGET_ADDR, nt_offset, mirror_nametable_addr, palette_slot, palette_index, word, make_word};
use crate::ppu_bus::{zeroed, filled};
use crate::controller::Controller;
use crate::mapper::common::{new_controllers, copied_into, min_len, copy_vec_to_front};

use crate::savestate::{SavestateWriter, SavestateReader, StateError, enc_u8, enc_bool, stored_at, lemma_add_assoc, lemma_stored_split, lemma_stored_u8, lemma_stored_bool};
use crate::controller::{controllers_bytes, controller_at, save_controllers, take_controllers, lemma_stored_controllers, CONTROLLER_STATE_LEN};
use crate::ppu_bus::{mirror_code, mirror_from_code, mirroring_from_code, save_mirroring, lemma_mirror_code_roundtrip};

verus! {

pub const PRG_BANK_SIZE: usize = 0x4000;
pub const CHR_RAM_SIZE: usize = 0x2000;
/// What the microphone port at $6000-$7FFF reads with nobody singing.
pub const MICROPHONE_IDLE: u8 = 0xFB;

pub struct BandaiKaraokeMapper {
    pub controllers: [Controller; 2],
    pub prg_rom: Vec<[u8; PRG_BANK_SIZE]>,
    pub prg_reg: usize,
    /// False while the selected expansion ROM is absent.
    pub prg_mapped: bool,
    pub mirroring: NametableMirror,
    pub chr_ram: Vec<u8>,
    pub vram: Vec<u8>,
    pub cpu_ram: Vec<u8>,
    pub palette_ram: Vec<u8>,
}

impl BandaiKaraokeMapper {
    pub open spec fn wf(&self) -> bool {
        &&& self.cpu_ram@.len() == CPU_RAM_SIZE
        &&& self.chr_ram@.len() == CHR_RAM_SIZE
        &&& self.vram@.len() == VRAM_SIZE
        &&& self.palette_ram@.len() == PALETTE_SIZE
    }

    pub open spec fn bank_byte(&self, bank: int, off: int) -> u8 {
        if 0 <= bank < self.prg_rom@.len() { self.prg_rom@[bank][off] } else { 0 }
    }

    pub open spec fn spec_prg_read(&self, addr: u16) -> u8 {
        let len = self.prg_rom@.len() as int;
        let m: int = if len == 0 { 1 } else { len };
        let off = (addr as int) % 0x4000;
        if addr < 0xC000 {
            if !self.prg_mapped { 0xFF } else { self.bank_byte(self.prg_reg as int % m, off) }
        } else {
            self.bank_byte(if m - 1 < 7 { m - 1 } else { 7 }, off)
        }
    }

    pub open spec fn spec_cpu_read(&self, addr: u16) -> u8 {
        if addr <= 0x1FFF {
            self.cpu_ram@[(addr as int) % 0x800]
        } else if 0x6000 <= addr <= 0x7FFF {
            MICROPHONE_IDLE
        } else if addr >= 0x8000 {
            self.spec_prg_read(addr)
        } else {
            0
        }
    }

    pub open spec fn spec_ppu_read(&self, addr: u16) -> u8 {
        if addr <= 0x1FFF {
            self.chr_ram@[addr as int]
        } else if addr <= 0x3EFF {
            self.vram@[nt_offset(addr, self.mirroring)]
        } else if addr <= 0x3FFF {
            self.palette_ram@[palette_slot(addr)]
        } else {
            0
        }
    }

    pub fn new(flags: u8, prg_banks_16k: Vec<[u8; 16384]>) -> (m: BandaiKaraokeMapper)
        ensures
            m.wf(),
            m.prg_rom@ == prg_banks_16k@,
            m.prg_reg == 0 && m.prg_mapped,
            m.mirroring == (if flags & 1 != 0 { NametableMirror::Vertical } else { NametableMirror::Horizontal }),
            m.chr_ram@ == Seq::new(CHR_RAM_SIZE as nat, |i: int| 0u8),
            m.vram@ == Seq::new(VRAM_SIZE as nat, |i: int| 0u8),
            m.cpu_ram@ == Seq::new(CPU_RAM_SIZE as nat, |i: int| 0u8),
            m.palette_ram@ == Seq::new(PALETTE_SIZE as nat, |i: int| 0x0Fu8),
    {
        BandaiKaraokeMapper {
            controllers: new_controllers(),
            prg_rom: prg_banks_16k,
            prg_reg: 0,
            prg_mapped: true,
            mirroring: if flags & 1 != 0 { NametableMirror::Vertical } else { NametableMirror::Horizontal },
            chr_ram: zeroed(CHR_RAM_SIZE),
            vram: zeroed(VRAM_SIZE),
            cpu_ram: zeroed(CPU_RAM_SIZE),
            palette_ram: filled(PALETTE_SIZE, 0x0F),
        }
    }

    fn bank_byte_at(&self, bank: usize, off: usize) -> (r: u8)
        requires
            off < PRG_BANK_SIZE,
        ensures
            r == self.bank_byte(bank as int, off as int),
    {
        if bank < self.prg_rom.len() { self.prg_rom[bank][off] } else { 0 }
    }

    fn prg_read(&self, addr: u16) -> (r: u8)
        ensures
            r == self.spec_prg_read(addr),
    {
        let m = if self.prg_rom.len() == 0 { 1 } else { self.prg_rom.len() };
        let off = (addr % 0x4000) as usize;
        if addr < 0xC000 {
            if !self.prg_mapped {
                return 0xFF;
            }
            self.bank_byte_at(self.prg_reg % m, off)
        } else {
            self.bank_byte_at(if m - 1 < 7 { m - 1 } else { 7 }, off)
        }
    }

    pub fn cpu_peek(&self, addr: u16) -> (r: u8)
        requires
            self.wf(),
        ensures
            r == self.spec_cpu_read(addr),
    {
        if addr <= 0x1FFF {
            self.cpu_ram[(addr % 0x800) as usize]
        } else if 0x6000 <= addr && addr <= 0x7FFF {
            MICROPHONE_IDLE
        } else if addr >= 0x8000 {
            self.prg_read(addr)
        } else {
            0
        }
    }

    pub fn cpu_read(&self, addr: u16) -> (r: u8)
        requires
            self.wf(),
        ensures
            r == self.spec_cpu_read(addr),
    {
        self.cpu_peek(addr)
    }

    /// A write to $8000-$FFFF is ANDed with the byte under it: bit 4 picks an
    /// internal bank (bits 0-2), else an expansion bank (8 + bits 0-2) when
    /// the ROM is large enough to hold one, else nothing; bit 5 picks
    /// horizontal mirroring.
    pub fn cpu_write(&mut self, addr: u16, value: u8)
        requires
            old(self).wf(),
        ensures
            final(self).wf(),
            addr <= 0x1FFF ==> final(self).cpu_ram@ == old(self).cpu_ram@.update((addr as int) % 0x800, value),
            addr > 0x1FFF ==> final(self).cpu_ram == old(self).cpu_ram,
            addr >= 0x8000 ==> ({
                let v = value & old(self).spec_prg_read(addr);
                &&& v & 0x10 != 0 ==> final(self).prg_reg == (v & 7) as usize && final(self).prg_mapped
                &&& v & 0x10 == 0 && old(self).prg_rom@.len() > 8 ==> final(self).prg_reg == ((v & 7) | 8) as usize && final(self).prg_mapped
                &&& v & 0x10 == 0 && old(self).prg_rom@.len() <= 8 ==> final(self).prg_reg == old(self).prg_reg && !final(self).prg_mapped
                &&& final(self).mirroring == (if v & 0x20 != 0 { NametableMirror::Horizontal } else { NametableMirror::Vertical })
            }),
            addr < 0x8000 ==> final(self).prg_reg == old(self).prg_reg && final(self).prg_mapped == old(self).prg_mapped
                && final(self).mirroring == old(self).mirroring,
            final(self).prg_rom == old(self).prg_rom,
            final(self).chr_ram == old(self).chr_ram,
            final(self).vram == old(self).vram,
            final(self).palette_ram == old(self).palette_ram,
            final(self).controllers == old(self).controllers,
    {
        if addr <= 0x1FFF {
            self.cpu_ram.set((addr % 0x800) as usize, value);
        } else if addr >= 0x8000 {
            let v = value & self.prg_read(addr);
            if v & 0x10 != 0 {
                self.prg_reg = (v & 0x07) as usize;
                self.prg_mapped = true;
            } else if self.prg_rom.len() > 8 {
                self.prg_reg = ((v & 0x07) | 0x08) as usize;
                self.prg_mapped = true;
            } else {
                self.prg_mapped = false;
            }
            self.mirroring = if v & 0x20 != 0 { NametableMirror::Horizontal } else { NametableMirror::Vertical };
        }
    }

    pub fn ppu_read(&self, addr: u16) -> (r: u8)
        requires
            self.wf(),
        ensures
            r == self.spec_ppu_read(addr),
    {
        if addr <= 0x1FFF {
            self.chr_ram[addr as usize]
        } else if addr <= 0x3EFF {
            self.vram[mirror_nametable_addr(addr, self.mirroring) as usize]
        } else if addr <= 0x3FFF {
            self.palette_ram[palette_index(addr)]
        } else {
            0
        }
    }

    /// CHR RAM, nametables and palette.
    pub fn ppu_write(&mut self, addr: u16, value: u8)
        requires
            old(self).wf(),
        ensures
            final(self).wf(),
            addr <= 0x1FFF ==> final(self).chr_ram@ == old(self).chr_ram@.update(addr as int, value),
            addr > 0x1FFF ==> final(self).chr_ram == old(self).chr_ram,
            0x2000 <= addr <= 0x3EFF ==> final(self).vram@ == old(self).vram@.update(nt_offset(addr, old(self).mirroring), value),
            !(0x2000 <= addr <= 0x3EFF) ==> final(self).vram == old(self).vram,
            0x3F00 <= addr <= 0x3FFF ==> final(self).palette_ram@ == old(self).palette_ram@.update(palette_slot(addr), value),
            !(0x3F00 <= addr <= 0x3FFF) ==> final(self).palette_ram == old(self).palette_ram,
            final(self).cpu_ram == old(self).cpu_ram,
            final(self).prg_reg == old(self).prg_reg,
            final(self).prg_mapped == old(self).prg_mapped,
            final(self).mirroring == old(self).mirroring,
            final(self).prg_rom == old(self).prg_rom,
    {
        if addr <= 0x1FFF {
            self.chr_ram.set(addr as usize, value);
        } else if addr <= 0x3EFF {
            let i = mirror_nametable_addr(addr, self.mirroring) as usize;
            self.vram.set(i, value);
        } else if addr <= 0x3FFF {
            let i = palette_index(addr);
            self.palette_ram.set(i, value);
        }
    }

    pub fn code_start(&self) -> (r: u16)
        requires
            self.wf(),
        ensures
            r == word(self.spec_cpu_read(RESET_TARGET_ADDR), self.spec_cpu_read(0xFFFD)),
    {
        make_word(self.cpu_peek(RESET_TARGET_ADDR), self.cpu_peek(RESET_TARGET_ADDR + 1))
    }

    pub fn poll_irq(&self) -> (r: bool)
        ensures
            !r,
    {
        false
    }

    pub fn mapper_id(&self) -> (r: u8)
        ensures
            r == 188,
    {
        188
    }
}

impl BandaiKaraokeMapper {
    /// The bytes `save_state` appends.
    pub open spec fn state_bytes(&self) -> Seq<u8> {
        self.cpu_ram@
            + self.chr_ram@
            + self.vram@
            + self.palette_ram@
            + enc_u8(self.prg_reg as u8)
            + enc_bool(self.prg_mapped)
            + enc_u8(mirror_code(self.mirroring))
            + controllers_bytes(self.controllers)
    }

    /// Length of the saved state.
    pub open spec fn state_len(&self) -> nat {
        (CPU_RAM_SIZE + CHR_RAM_SIZE + VRAM_SIZE + PALETTE_SIZE + 2 * CONTROLLER_STATE_LEN + 3) as nat
    }

    /// Every register that the state stores in fewer bits than it is held in
    /// fits in those bits.
    pub open spec fn fits(&self) -> bool {
        &&& self.prg_reg < 256
    }

    /// The stored bytes at `p` hold a state that this cartridge can take.
    pub open spec fn state_valid(&self, d: Seq<u8>, p: int) -> bool {
        &&& mirror_from_code(d[(p + CPU_RAM_SIZE + CHR_RAM_SIZE + VRAM_SIZE + PALETTE_SIZE + 2)]) is Some
    }

    /// What `load_state` answers for the bytes at `p`.
    pub open spec fn load_outcome(&self, d: Seq<u8>, p: int) -> Result<(), StateError> {
        if p + self.state_len() > d.len() {
            Err(StateError::UnexpectedEof)
        } else if !self.state_valid(d, p) {
            Err(StateError::InvalidValue)
        } else {
            Ok(())
        }
    }

    /// Every saved field holds what the bytes at `p` store.
    pub open spec fn loaded_from(&self, d: Seq<u8>, p: int) -> bool {
        &&& self.cpu_ram@ == d.subrange(p, p + CPU_RAM_SIZE)
        &&& self.chr_ram@ == d.subrange((p + CPU_RAM_SIZE), (p + CPU_RAM_SIZE) + CHR_RAM_SIZE)
        &&& self.vram@ == d.subrange((p + CPU_RAM_SIZE + CHR_RAM_SIZE), (p + CPU_RAM_SIZE + CHR_RAM_SIZE) + VRAM_SIZE)
        &&& self.palette_ram@ == d.subrange((p + CPU_RAM_SIZE + CHR_RAM_SIZE + VRAM_SIZE), (p + CPU_RAM_SIZE + CHR_RAM_SIZE + VRAM_SIZE) + PALETTE_SIZE)
        &&& self.prg_reg == d[(p + CPU_RAM_SIZE + CHR_RAM_SIZE + VRAM_SIZE + PALETTE_SIZE)] as usize
        &&& self.prg_mapped == (d[(p + CPU_RAM_SIZE + CHR_RAM_SIZE + VRAM_SIZE + PALETTE_SIZE + 1)] != 0)
        &&& self.mirroring == mirror_from_code(d[(p + CPU_RAM_SIZE + CHR_RAM_SIZE + VRAM_SIZE + PALETTE_SIZE + 2)])->0
        &&& self.controllers@[0] == controller_at(d, (p + CPU_RAM_SIZE + CHR_RAM_SIZE + VRAM_SIZE + PALETTE_SIZE + 3))
        &&& self.controllers@[1] == controller_at(d, (p + CPU_RAM_SIZE + CHR_RAM_SIZE + VRAM_SIZE + PALETTE_SIZE + 3) + CONTROLLER_STATE_LEN)
    }

    /// The two agree on every saved field.
    pub open spec fn same_state(&self, other: &Self) -> bool {
        &&& self.cpu_ram@ == other.cpu_ram@
        &&& self.chr_ram@ == other.chr_ram@
        &&& self.vram@ == other.vram@
        &&& self.palette_ram@ == other.palette_ram@
        &&& self.prg_reg == other.prg_reg
        &&& self.prg_mapped == other.prg_mapped
        &&& self.mirroring == other.mirroring
        &&& self.controllers@ == other.controllers@
    }

    /// The two agree on every field that the state does not store.
    pub open spec fn keeps_unsaved(&self, other: &Self) -> bool {
        &&& self.prg_rom == other.prg_rom
    }

    /// The two come from cartridges of the same shape.
    pub open spec fn same_layout(&self, other: &Self) -> bool {
        true
    }

    #[verifier::spinoff_prover]
    pub fn save_state(&self, w: &mut SavestateWriter)
        ensures
            final(w).buf@ == old(w).buf@ + self.state_bytes(),
    {
        let ghost b = w.buf@;
        let ghost s0 = self.cpu_ram@;
        let ghost s1 = s0 + self.chr_ram@;
        let ghost s2 = s1 + self.vram@;
        let ghost s3 = s2 + self.palette_ram@;
        let ghost s4 = s3 + enc_u8(self.prg_reg as u8);
        let ghost s5 = s4 + enc_bool(self.prg_mapped);
        let ghost s6 = s5 + enc_u8(mirror_code(self.mirroring));
        let ghost s7 = s6 + controllers_bytes(self.controllers);
        w.write_bytes(self.cpu_ram.as_slice());
        w.write_bytes(self.chr_ram.as_slice());
        proof {
            lemma_add_assoc(b, s0, self.chr_ram@);
        }
        w.write_bytes(self.vram.as_slice());
        proof {
            lemma_add_assoc(b, s1, self.vram@);
        }
        w.write_bytes(self.palette_ram.as_slice());
        proof {
            lemma_add_assoc(b, s2, self.palette_ram@);
        }
        w.write_u8(self.prg_reg as u8);
        proof {
            lemma_add_assoc(b, s3, enc_u8(self.prg_reg as u8));
        }
        w.write_bool(self.prg_mapped);
        proof {
            lemma_add_assoc(b, s4, enc_bool(self.prg_mapped));
        }
        save_mirroring(w, self.mirroring);
        proof {
            lemma_add_assoc(b, s5, enc_u8(mirror_code(self.mirroring)));
        }
        save_controllers(w, &self.controllers);
        proof {
            lemma_add_assoc(b, s6, controllers_bytes(self.controllers));
        }
    }

    /// Restores a state written by `save_state`. Nothing changes unless the
    /// whole state is there and holds values this cartridge can take.
    #[verifier::spinoff_prover]
    pub fn load_state(&mut self, r: &mut SavestateReader) -> (res: Result<(), StateError>)
        requires
            old(self).wf(),
            old(r).wf(),
        ensures
            final(r).wf(),
            final(r).data@ == old(r).data@,
            res == old(self).load_outcome(old(r).data@, old(r).pos as int),
            res is Err ==> *final(self) == *old(self) && final(r).pos == old(r).pos,
            res is Ok ==> final(self).wf() && final(self).loaded_from(old(r).data@, old(r).pos as int)
                && final(self).keeps_unsaved(&*old(self)) && final(self).same_layout(&*old(self))
                && final(r).pos == old(r).pos + old(self).state_len(),
    {
        let ghost d = r.data@;
        let ghost p = r.pos as int;
        let start = r.pos;
        if r.remaining_len() < CPU_RAM_SIZE + CHR_RAM_SIZE + VRAM_SIZE + PALETTE_SIZE + 2 * CONTROLLER_STATE_LEN + 3 {
            return Err(StateError::UnexpectedEof);
        }
        let cpu_ram = r.take_bytes(CPU_RAM_SIZE);
        let chr_ram = r.take_bytes(CHR_RAM_SIZE);
        let vram = r.take_bytes(VRAM_SIZE);
        let palette_ram = r.take_bytes(PALETTE_SIZE);
        let prg_reg = r.take_u8() as usize;
        let prg_mapped = r.take_bool();
        let mirroring_code = r.take_u8();
        let controllers = take_controllers(r);
        let mirroring = match mirroring_from_code(mirroring_code) {
            Some(m) => m,
            None => {
                r.rewind(start);
                return Err(StateError::InvalidValue);
            },
        };
        self.cpu_ram = cpu_ram;
        self.chr_ram = chr_ram;
        self.vram = vram;
        self.palette_ram = palette_ram;
        self.prg_reg = prg_reg;
        self.prg_mapped = prg_mapped;
        self.mirroring = mirroring;
        self.controllers = controllers;
        Ok(())
    }

    /// Saving a state and loading it into a cartridge of the same shape
    /// succeeds and restores every saved field.
    #[verifier::spinoff_prover]
    pub proof fn lemma_state_roundtrip(o: Self, m: Self, n: Self, d: Seq<u8>, p: int)
        requires
            o.wf(),
            m.wf(),
            m.fits(),
            o.same_layout(&m),
            n.same_layout(&m),
            stored_at(d, p, m.state_bytes()),
        ensures
            o.load_outcome(d, p) == Ok::<(), StateError>(()),
            n.loaded_from(d, p) ==> n.same_state(&m),
    {
        let s0 = m.cpu_ram@;
        let s1 = s0 + m.chr_ram@;
        let s2 = s1 + m.vram@;
        let s3 = s2 + m.palette_ram@;
        let s4 = s3 + enc_u8(m.prg_reg as u8);
        let s5 = s4 + enc_bool(m.prg_mapped);
        let s6 = s5 + enc_u8(mirror_code(m.mirroring));
        let s7 = s6 + controllers_bytes(m.controllers);
        lemma_stored_split(d, p, s6, controllers_bytes(m.controllers));
        lemma_stored_split(d, p, s5, enc_u8(mirror_code(m.mirroring)));
        lemma_stored_split(d, p, s4, enc_bool(m.prg_mapped));
        lemma_stored_split(d, p, s3, enc_u8(m.prg_reg as u8));
        lemma_stored_split(d, p, s2, m.palette_ram@);
        lemma_stored_split(d, p, s1, m.vram@);
        lemma_stored_split(d, p, s0, m.chr_ram@);
        lemma_stored_u8(d, (p + CPU_RAM_SIZE + CHR_RAM_SIZE + VRAM_SIZE + PALETTE_SIZE), m.prg_reg as u8);
        lemma_stored_bool(d, (p + CPU_RAM_SIZE + CHR_RAM_SIZE + VRAM_SIZE + PALETTE_SIZE + 1), m.prg_mapped);
        lemma_stored_u8(d, (p + CPU_RAM_SIZE + CHR_RAM_SIZE + VRAM_SIZE + PALETTE_SIZE + 2), mirror_code(m.mirroring));
        lemma_mirror_code_roundtrip(m.mirroring);
        lemma_stored_controllers(d, (p + CPU_RAM_SIZE + CHR_RAM_SIZE + VRAM_SIZE + PALETTE_SIZE + 3), m.controllers);
        if n.loaded_from(d, p) {
            assert(n.controllers@ =~= m.controllers@);
        }
    }
}

impl BandaiKaraokeMapper {
    /// Where a bulk copy of `size` bytes from `addr` reads: the CHR RAM from the address up to its end, or the
    /// nametable RAM up to its end.
    pub open spec fn copy_run(&self, addr: u16, size: int) -> Option<(Seq<u8>, int, int)> {
        if addr <= 0x1FFF {
            let o = addr as int;
            Some((self.chr_ram@, o, min_len(size, CHR_RAM_SIZE - o)))
        } else if addr <= 0x3EFF {
            let v = nt_offset(addr, self.mirroring);
            Some((self.vram@, v, min_len(size, VRAM_SIZE - v)))
        } else {
            None
        }
    }

    /// Copies up to `size` bytes of PPU memory from `addr` to the front of
    /// `dest`, from one run of the memory behind that address.
    pub fn ppu_copy(&self, addr: u16, dest: &mut Vec<u8>, size: usize)
        requires
            self.wf(),
            size <= old(dest)@.len(),
        ensures
            match self.copy_run(addr, size as int) {
                Some((src, off, n)) => final(dest)@ == copied_into(old(dest)@, src, off, n),
                None => final(dest)@ == old(dest)@,
            },
    {
        if addr <= 0x1FFF {
            let o = addr as usize;
            let n = if size < CHR_RAM_SIZE - o { size } else { CHR_RAM_SIZE - o };
            copy_vec_to_front(dest, &self.chr_ram, o, n);
        } else if addr <= 0x3EFF {
            let v = mirror_nametable_addr(addr, self.mirroring) as usize;
            let n = if size < VRAM_SIZE - v { size } else { VRAM_SIZE - v };
            copy_vec_to_front(dest, &self.vram, v, n);
        }
    }
}

} // verus!
