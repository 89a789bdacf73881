//! Daou Infosys (mapper 156): a switchable 16KB PRG bank before a fixed last
//! one, eight 1KB CHR banks with 16-bit numbers written a byte at a time,
//! and single-screen mirroring until the game selects another.

use vstd::prelude::*;
use crate::bus::{NametableMirror, CPU_RAM_SIZE, VRAM_SIZE, PALETTE_SIZE, RESET_TARGET_ADDR, nt_offset, mirror_nametable_addr, palette_slot, palette_index, word, make_word};
use crate::ppu_bus::{zeroed, filled};
use crate::controller::Controller;
use crate::mapper::common::{new_controllers, copied_into, min_len, copy_vec_to_front, copy_bank_to_front};

use crate::savestate::{SavestateWriter, SavestateReader, StateError, enc_u8, stored_at, lemma_add_assoc, lemma_stored_split, lemma_stored_u8, copy_into_array};
use crate::controller::{controllers_bytes, controller_at, save_controllers, take_controllers, lemma_stored_controllers, CONTROLLER_STATE_LEN};
use crate::ppu_bus::{mirror_code, mirror_from_code, mirroring_from_code, save_mirroring, lemma_mirror_code_roundtrip};

verus! {

pub const PRG_BANK_SIZE: usize = 0x4000;
pub const CHR_BANK_SIZE: usize = 0x0400;
pub const WRAM_SIZE: usize = 0x2000;

pub struct DaouMapper {
    pub controllers: [Controller; 2],
    pub prg_rom: Vec<[u8; PRG_BANK_SIZE]>,
    pub chr_8k: Vec<[u8; 8192]>,
    pub prg_reg: u8,
    pub chr_low: [u8; 8],
    pub chr_high: [u8; 8],
    pub mirroring: NametableMirror,
    pub wram: Vec<u8>,
    pub vram: Vec<u8>,
    pub cpu_ram: Vec<u8>,
    pub palette_ram: Vec<u8>,
}

impl DaouMapper {
    pub open spec fn wf(&self) -> bool {
        &&& self.cpu_ram@.len() == CPU_RAM_SIZE
        &&& self.wram@.len() == WRAM_SIZE
        &&& self.vram@.len() == VRAM_SIZE
        &&& self.palette_ram@.len() == PALETTE_SIZE
        &&& 8 * self.chr_8k@.len() <= usize::MAX
    }

    pub open spec fn spec_cpu_read(&self, addr: u16) -> u8 {
        let len: int = if self.prg_rom@.len() == 0 { 1 } else { self.prg_rom@.len() as int };
        if addr <= 0x1FFF {
            self.cpu_ram@[(addr as int) % 0x800]
        } else if 0x6000 <= addr <= 0x7FFF {
            self.wram@[addr - 0x6000]
        } else if addr >= 0x8000 {
            let bank = if addr < 0xC000 { self.prg_reg as int % len } else { len - 1 };
            if bank < self.prg_rom@.len() { self.prg_rom@[bank][(addr as int) % 0x4000] } else { 0 }
        } else {
            0
        }
    }

    pub open spec fn spec_chr_index(&self, addr: u16) -> int {
        let slot = ((addr as int) / 1024) % 8;
        let n: int = if self.chr_8k@.len() == 0 { 1 } else { 8 * self.chr_8k@.len() as int };
        (self.chr_high@[slot] as int * 256 + self.chr_low@[slot] as int) % n
    }

    pub open spec fn spec_ppu_read(&self, addr: u16) -> u8 {
        if addr <= 0x1FFF {
            let idx = self.spec_chr_index(addr);
            if self.chr_8k@.len() == 0 { 0 } else { self.chr_8k@[idx / 8][(idx % 8) * 1024 + (addr as int) % 1024] }
        } else if addr <= 0x3EFF {
            self.vram@[nt_offset(addr, self.mirroring)]
        } else if addr <= 0x3FFF {
            self.palette_ram@[palette_slot(addr)]
        } else {
            0
        }
    }

    pub fn new(prg_banks_16k: Vec<[u8; 16384]>, chr_banks_8k: Vec<[u8; 8192]>) -> (m: DaouMapper)
        requires
            8 * chr_banks_8k@.len() <= usize::MAX,
        ensures
            m.wf(),
            m.prg_rom@ == prg_banks_16k@,
            m.chr_8k@ == chr_banks_8k@,
            m.prg_reg == 0,
            forall|i: int| 0 <= i < 8 ==> m.chr_low@[i] == 0 && m.chr_high@[i] == 0,
            m.mirroring == NametableMirror::Lower,
            m.wram@ == Seq::new(WRAM_SIZE as nat, |i: int| 0u8),
            m.vram@ == Seq::new(VRAM_SIZE as nat, |i: int| 0u8),
            m.cpu_ram@ == Seq::new(CPU_RAM_SIZE as nat, |i: int| 0u8),
            m.palette_ram@ == Seq::new(PALETTE_SIZE as nat, |i: int| 0x0Fu8),
    {
        DaouMapper {
            controllers: new_controllers(),
            prg_rom: prg_banks_16k,
            chr_8k: chr_banks_8k,
            prg_reg: 0,
            chr_low: [0; 8],
            chr_high: [0; 8],
            mirroring: NametableMirror::Lower,
            wram: zeroed(WRAM_SIZE),
            vram: zeroed(VRAM_SIZE),
            cpu_ram: zeroed(CPU_RAM_SIZE),
            palette_ram: filled(PALETTE_SIZE, 0x0F),
        }
    }

    fn chr_1k_index(&self, addr: u16) -> (r: usize)
        requires
            self.wf(),
        ensures
            r as int == self.spec_chr_index(addr),
            self.chr_8k@.len() > 0 ==> r < 8 * self.chr_8k@.len(),
    {
        let slot = ((addr / 1024) % 8) as usize;
        let n = if self.chr_8k.len() == 0 { 1 } else { 8 * self.chr_8k.len() };
        (self.chr_high[slot] as usize * 256 + self.chr_low[slot] as usize) % n
    }

    pub fn cpu_peek(&self, addr: u16) -> (r: u8)
        requires
            self.wf(),
        ensures
            r == self.spec_cpu_read(addr),
    {
        if addr <= 0x1FFF {
            return self.cpu_ram[(addr % 0x800) as usize];
        }
        if 0x6000 <= addr && addr <= 0x7FFF {
            return self.wram[(addr - 0x6000) as usize];
        }
        if addr < 0x8000 {
            return 0;
        }
        let len = if self.prg_rom.len() == 0 { 1 } else { self.prg_rom.len() };
        let bank = if addr < 0xC000 { self.prg_reg as usize % len } else { len - 1 };
        if bank < self.prg_rom.len() {
            self.prg_rom[bank][(addr % 0x4000) as usize]
        } else {
            0
        }
    }

    pub fn cpu_read(&self, addr: u16) -> (r: u8)
        requires
            self.wf(),
        ensures
            r == self.spec_cpu_read(addr),
    {
        self.cpu_peek(addr)
    }

    /// $C000-$C00F: CHR bank bytes (A2 picks the high byte, A3 the upper four
    /// slots); $C010: PRG bank; $C014: mirroring.
    pub fn cpu_write(&mut self, addr: u16, value: u8)
        requires
            old(self).wf(),
        ensures
            final(self).wf(),
            addr <= 0x1FFF ==> final(self).cpu_ram@ == old(self).cpu_ram@.update((addr as int) % 0x800, value),
            addr > 0x1FFF ==> final(self).cpu_ram == old(self).cpu_ram,
            0x6000 <= addr <= 0x7FFF ==> final(self).wram@ == old(self).wram@.update(addr - 0x6000, value),
            !(0x6000 <= addr <= 0x7FFF) ==> final(self).wram == old(self).wram,
            ({
                let r = (addr as int) - 0xC000;
                let slot = r % 4 + (if r >= 8 { 4int } else { 0 });
                &&& 0 <= r < 16 && (r / 4) % 2 == 1 ==> final(self).chr_high@ == old(self).chr_high@.update(slot, value)
                    && final(self).chr_low == old(self).chr_low
                &&& 0 <= r < 16 && (r / 4) % 2 == 0 ==> final(self).chr_low@ == old(self).chr_low@.update(slot, value)
                    && final(self).chr_high == old(self).chr_high
                &&& !(0 <= r < 16) ==> final(self).chr_low == old(self).chr_low && final(self).chr_high == old(self).chr_high
                &&& final(self).prg_reg == (if r == 0x10 { value } else { old(self).prg_reg })
                &&& final(self).mirroring == (if r == 0x14 {
                    if value & 1 != 0 { NametableMirror::Horizontal } else { NametableMirror::Vertical }
                } else {
                    old(self).mirroring
                })
            }),
            final(self).prg_rom == old(self).prg_rom,
            final(self).chr_8k == old(self).chr_8k,
            final(self).vram == old(self).vram,
            final(self).palette_ram == old(self).palette_ram,
            final(self).controllers == old(self).controllers,
    {
        if addr <= 0x1FFF {
            self.cpu_ram.set((addr % 0x800) as usize, value);
        } else if 0x6000 <= addr && addr <= 0x7FFF {
            self.wram.set((addr - 0x6000) as usize, value);
        } else if 0xC000 <= addr && addr <= 0xC00F {
            let r = (addr - 0xC000) as usize;
            let slot = r % 4 + if r >= 8 { 4 } else { 0 };
            if (r / 4) % 2 == 1 {
                self.chr_high[slot] = value;
            } else {
                self.chr_low[slot] = value;
            }
        } else if addr == 0xC010 {
            self.prg_reg = value;
        } else if addr == 0xC014 {
            self.mirroring = if value & 0x01 != 0 { NametableMirror::Horizontal } else { NametableMirror::Vertical };
        }
    }

    pub fn ppu_read(&self, addr: u16) -> (r: u8)
        requires
            self.wf(),
        ensures
            r == self.spec_ppu_read(addr),
    {
        if addr <= 0x1FFF {
            if self.chr_8k.len() == 0 {
                return 0;
            }
            let idx = self.chr_1k_index(addr);
            self.chr_8k[idx / 8][(idx % 8) * 1024 + (addr % 1024) as usize]
        } else if addr <= 0x3EFF {
            self.vram[mirror_nametable_addr(addr, self.mirroring) as usize]
        } else if addr <= 0x3FFF {
            self.palette_ram[palette_index(addr)]
        } else {
            0
        }
    }

    /// Nametable and palette writes; the pattern tables are ROM.
    pub fn ppu_write(&mut self, addr: u16, value: u8)
        requires
            old(self).wf(),
        ensures
            final(self).wf(),
            0x2000 <= addr <= 0x3EFF ==> final(self).vram@ == old(self).vram@.update(nt_offset(addr, old(self).mirroring), value),
            !(0x2000 <= addr <= 0x3EFF) ==> final(self).vram == old(self).vram,
            0x3F00 <= addr <= 0x3FFF ==> final(self).palette_ram@ == old(self).palette_ram@.update(palette_slot(addr), value),
            !(0x3F00 <= addr <= 0x3FFF) ==> final(self).palette_ram == old(self).palette_ram,
            final(self).cpu_ram == old(self).cpu_ram,
            final(self).wram == old(self).wram,
            final(self).prg_reg == old(self).prg_reg,
            final(self).chr_low == old(self).chr_low,
            final(self).chr_high == old(self).chr_high,
            final(self).mirroring == old(self).mirroring,
            final(self).prg_rom == old(self).prg_rom,
            final(self).chr_8k == old(self).chr_8k,
    {
        if 0x2000 <= addr && addr <= 0x3EFF {
            let i = mirror_nametable_addr(addr, self.mirroring) as usize;
            self.vram.set(i, value);
        } else if 0x3F00 <= addr && addr <= 0x3FFF {
            let i = palette_index(addr);
            self.palette_ram.set(i, value);
        }
    }

    pub fn code_start(&self) -> (r: u16)
        requires
            self.wf(),
        ensures
            r == word(self.spec_cpu_read(RESET_TARGET_ADDR), self.spec_cpu_read(0xFFFD)),
    {
        make_word(self.cpu_peek(RESET_TARGET_ADDR), self.cpu_peek(RESET_TARGET_ADDR + 1))
    }

    pub fn poll_irq(&self) -> (r: bool)
        ensures
            !r,
    {
        false
    }

    pub fn mapper_id(&self) -> (r: u8)
        ensures
            r == 156,
    {
        156
    }
}

impl DaouMapper {
    /// The bytes `save_state` appends.
    pub open spec fn state_bytes(&self) -> Seq<u8> {
        self.cpu_ram@
            + self.wram@
            + self.vram@
            + self.palette_ram@
            + enc_u8(self.prg_reg)
            + self.chr_low@
            + self.chr_high@
            + enc_u8(mirror_code(self.mirroring))
            + controllers_bytes(self.controllers)
    }

    /// Length of the saved state.
    pub open spec fn state_len(&self) -> nat {
        (CPU_RAM_SIZE + WRAM_SIZE + VRAM_SIZE + PALETTE_SIZE + 2 * CONTROLLER_STATE_LEN + 18) as nat
    }

    /// Every register that the state stores in fewer bits than it is held in
    /// fits in those bits.
    pub open spec fn fits(&self) -> bool {
        true
    }

    /// The stored bytes at `p` hold a state that this cartridge can take.
    pub open spec fn state_valid(&self, d: Seq<u8>, p: int) -> bool {
        &&& mirror_from_code(d[(p + CPU_RAM_SIZE + WRAM_SIZE + VRAM_SIZE + PALETTE_SIZE + 17)]) is Some
    }

    /// What `load_state` answers for the bytes at `p`.
    pub open spec fn load_outcome(&self, d: Seq<u8>, p: int) -> Result<(), StateError> {
        if p + self.state_len() > d.len() {
            Err(StateError::UnexpectedEof)
        } else if !self.state_valid(d, p) {
            Err(StateError::InvalidValue)
        } else {
            Ok(())
        }
    }

    /// Every saved field holds what the bytes at `p` store.
    pub open spec fn loaded_from(&self, d: Seq<u8>, p: int) -> bool {
        &&& self.cpu_ram@ == d.subrange(p, p + CPU_RAM_SIZE)
        &&& self.wram@ == d.subrange((p + CPU_RAM_SIZE), (p + CPU_RAM_SIZE) + WRAM_SIZE)
        &&& self.vram@ == d.subrange((p + CPU_RAM_SIZE + WRAM_SIZE), (p + CPU_RAM_SIZE + WRAM_SIZE) + VRAM_SIZE)
        &&& self.palette_ram@ == d.subrange((p + CPU_RAM_SIZE + WRAM_SIZE + VRAM_SIZE), (p + CPU_RAM_SIZE + WRAM_SIZE + VRAM_SIZE) + PALETTE_SIZE)
        &&& self.prg_reg == d[(p + CPU_RAM_SIZE + WRAM_SIZE + VRAM_SIZE + PALETTE_SIZE)]
        &&& self.chr_low@ == d.subrange((p + CPU_RAM_SIZE + WRAM_SIZE + VRAM_SIZE + PALETTE_SIZE + 1), (p + CPU_RAM_SIZE + WRAM_SIZE + VRAM_SIZE + PALETTE_SIZE + 1) + 8)
        &&& self.chr_high@ == d.subrange((p + CPU_RAM_SIZE + WRAM_SIZE + VRAM_SIZE + PALETTE_SIZE + 9), (p + CPU_RAM_SIZE + WRAM_SIZE + VRAM_SIZE + PALETTE_SIZE + 9) + 8)
        &&& self.mirroring == mirror_from_code(d[(p + CPU_RAM_SIZE + WRAM_SIZE + VRAM_SIZE + PALETTE_SIZE + 17)])->0
        &&& self.controllers@[0] == controller_at(d, (p + CPU_RAM_SIZE + WRAM_SIZE + VRAM_SIZE + PALETTE_SIZE + 18))
        &&& self.controllers@[1] == controller_at(d, (p + CPU_RAM_SIZE + WRAM_SIZE + VRAM_SIZE + PALETTE_SIZE + 18) + CONTROLLER_STATE_LEN)
    }

    /// The two agree on every saved field.
    pub open spec fn same_state(&self, other: &Self) -> bool {
        &&& self.cpu_ram@ == other.cpu_ram@
        &&& self.wram@ == other.wram@
        &&& self.vram@ == other.vram@
        &&& self.palette_ram@ == other.palette_ram@
        &&& self.prg_reg == other.prg_reg
        &&& self.chr_low@ == other.chr_low@
        &&& self.chr_high@ == other.chr_high@
        &&& self.mirroring == other.mirroring
        &&& self.controllers@ == other.controllers@
    }

    /// The two agree on every field that the state does not store.
    pub open spec fn keeps_unsaved(&self, other: &Self) -> bool {
        &&& self.prg_rom == other.prg_rom
        &&& self.chr_8k == other.chr_8k
    }

    /// The two come from cartridges of the same shape.
    pub open spec fn same_layout(&self, other: &Self) -> bool {
        true
    }

    #[verifier::spinoff_prover]
    pub fn save_state(&self, w: &mut SavestateWriter)
        ensures
            final(w).buf@ == old(w).buf@ + self.state_bytes(),
    {
        let ghost b = w.buf@;
        let ghost s0 = self.cpu_ram@;
        let ghost s1 = s0 + self.wram@;
        let ghost s2 = s1 + self.vram@;
        let ghost s3 = s2 + self.palette_ram@;
        let ghost s4 = s3 + enc_u8(self.prg_reg);
        let ghost s5 = s4 + self.chr_low@;
        let ghost s6 = s5 + self.chr_high@;
        let ghost s7 = s6 + enc_u8(mirror_code(self.mirroring));
        let ghost s8 = s7 + controllers_bytes(self.controllers);
        w.write_bytes(self.cpu_ram.as_slice());
        w.write_bytes(self.wram.as_slice());
        proof {
            lemma_add_assoc(b, s0, self.wram@);
        }
        w.write_bytes(self.vram.as_slice());
        proof {
            lemma_add_assoc(b, s1, self.vram@);
        }
        w.write_bytes(self.palette_ram.as_slice());
        proof {
            lemma_add_assoc(b, s2, self.palette_ram@);
        }
        w.write_u8(self.prg_reg);
        proof {
            lemma_add_assoc(b, s3, enc_u8(self.prg_reg));
        }
        w.write_bytes(self.chr_low.as_slice());
        proof {
            lemma_add_assoc(b, s4, self.chr_low@);
        }
        w.write_bytes(self.chr_high.as_slice());
        proof {
            lemma_add_assoc(b, s5, self.chr_high@);
        }
        save_mirroring(w, self.mirroring);
        proof {
            lemma_add_assoc(b, s6, enc_u8(mirror_code(self.mirroring)));
        }
        save_controllers(w, &self.controllers);
        proof {
            lemma_add_assoc(b, s7, controllers_bytes(self.controllers));
        }
    }

    /// Restores a state written by `save_state`. Nothing changes unless the
    /// whole state is there and holds values this cartridge can take.
    #[verifier::spinoff_prover]
    pub fn load_state(&mut self, r: &mut SavestateReader) -> (res: Result<(), StateError>)
        requires
            old(self).wf(),
            old(r).wf(),
        ensures
            final(r).wf(),
            final(r).data@ == old(r).data@,
            res == old(self).load_outcome(old(r).data@, old(r).pos as int),
            res is Err ==> *final(self) == *old(self) && final(r).pos == old(r).pos,
            res is Ok ==> final(self).wf() && final(self).loaded_from(old(r).data@, old(r).pos as int)
                && final(self).keeps_unsaved(&*old(self)) && final(self).same_layout(&*old(self))
                && final(r).pos == old(r).pos + old(self).state_len(),
    {
        let ghost d = r.data@;
        let ghost p = r.pos as int;
        let start = r.pos;
        if r.remaining_len() < CPU_RAM_SIZE + WRAM_SIZE + VRAM_SIZE + PALETTE_SIZE + 2 * CONTROLLER_STATE_LEN + 18 {
            return Err(StateError::UnexpectedEof);
        }
        let cpu_ram = r.take_bytes(CPU_RAM_SIZE);
        let wram = r.take_bytes(WRAM_SIZE);
        let vram = r.take_bytes(VRAM_SIZE);
        let palette_ram = r.take_bytes(PALETTE_SIZE);
        let prg_reg = r.take_u8();
        let chr_low_bytes = r.take_bytes(8);
        let mut chr_low = self.chr_low;
        copy_into_array(&mut chr_low, &chr_low_bytes);
        let chr_high_bytes = r.take_bytes(8);
        let mut chr_high = self.chr_high;
        copy_into_array(&mut chr_high, &chr_high_bytes);
        let mirroring_code = r.take_u8();
        let controllers = take_controllers(r);
        let mirroring = match mirroring_from_code(mirroring_code) {
            Some(m) => m,
            None => {
                r.rewind(start);
                return Err(StateError::InvalidValue);
            },
        };
        self.cpu_ram = cpu_ram;
        self.wram = wram;
        self.vram = vram;
        self.palette_ram = palette_ram;
        self.prg_reg = prg_reg;
        self.chr_low = chr_low;
        self.chr_high = chr_high;
        self.mirroring = mirroring;
        self.controllers = controllers;
        Ok(())
    }

    /// Saving a state and loading it into a cartridge of the same shape
    /// succeeds and restores every saved field.
    #[verifier::spinoff_prover]
    pub proof fn lemma_state_roundtrip(o: Self, m: Self, n: Self, d: Seq<u8>, p: int)
        requires
            o.wf(),
            m.wf(),
            m.fits(),
            o.same_layout(&m),
            n.same_layout(&m),
            stored_at(d, p, m.state_bytes()),
        ensures
            o.load_outcome(d, p) == Ok::<(), StateError>(()),
            n.loaded_from(d, p) ==> n.same_state(&m),
    {
        let s0 = m.cpu_ram@;
        let s1 = s0 + m.wram@;
        let s2 = s1 + m.vram@;
        let s3 = s2 + m.palette_ram@;
        let s4 = s3 + enc_u8(m.prg_reg);
        let s5 = s4 + m.chr_low@;
        let s6 = s5 + m.chr_high@;
        let s7 = s6 + enc_u8(mirror_code(m.mirroring));
        let s8 = s7 + controllers_bytes(m.controllers);
        lemma_stored_split(d, p, s7, controllers_bytes(m.controllers));
        lemma_stored_split(d, p, s6, enc_u8(mirror_code(m.mirroring)));
        lemma_stored_split(d, p, s5, m.chr_high@);
        lemma_stored_split(d, p, s4, m.chr_low@);
        lemma_stored_split(d, p, s3, enc_u8(m.prg_reg));
        lemma_stored_split(d, p, s2, m.palette_ram@);
        lemma_stored_split(d, p, s1, m.vram@);
        lemma_stored_split(d, p, s0, m.wram@);
        lemma_stored_u8(d, (p + CPU_RAM_SIZE + WRAM_SIZE + VRAM_SIZE + PALETTE_SIZE), m.prg_reg);
        lemma_stored_u8(d, (p + CPU_RAM_SIZE + WRAM_SIZE + VRAM_SIZE + PALETTE_SIZE + 17), mirror_code(m.mirroring));
        lemma_mirror_code_roundtrip(m.mirroring);
        lemma_stored_controllers(d, (p + CPU_RAM_SIZE + WRAM_SIZE + VRAM_SIZE + PALETTE_SIZE + 18), m.controllers);
        if n.loaded_from(d, p) {
            assert(n.controllers@ =~= m.controllers@);
        }
    }
}

impl DaouMapper {
    /// Where a bulk copy of `size` bytes from `addr` reads: the rest of the
    /// selected 1KB pattern page, or the nametable RAM up to its end.
    pub open spec fn copy_run(&self, addr: u16, size: int) -> Option<(Seq<u8>, int, int)> {
        if addr <= 0x1FFF {
            if self.chr_8k@.len() == 0 {
                None
            } else {
                let idx = self.spec_chr_index(addr);
                let off = (addr as int) % 1024;
                Some((self.chr_8k@[idx / 8]@, (idx % 8) * 1024 + off, min_len(size, 1024 - off)))
            }
        } else if addr <= 0x3EFF {
            let v = nt_offset(addr, self.mirroring);
            Some((self.vram@, v, min_len(size, VRAM_SIZE - v)))
        } else {
            None
        }
    }

    /// Copies up to `size` bytes of PPU memory from `addr` to the front of
    /// `dest`, from one run of the memory behind that address.
    pub fn ppu_copy(&self, addr: u16, dest: &mut Vec<u8>, size: usize)
        requires
            self.wf(),
            size <= old(dest)@.len(),
        ensures
            match self.copy_run(addr, size as int) {
                Some((src, off, n)) => final(dest)@ == copied_into(old(dest)@, src, off, n),
                None => final(dest)@ == old(dest)@,
            },
    {
        if addr <= 0x1FFF {
            if self.chr_8k.len() > 0 {
                let idx = self.chr_1k_index(addr);
                let off = (addr % 1024) as usize;
                let n = if size < 1024 - off { size } else { 1024 - off };
                copy_bank_to_front(dest, &self.chr_8k[idx / 8], (idx % 8) * 1024 + off, n);
            }
        } else if addr <= 0x3EFF {
            let v = mirror_nametable_addr(addr, self.mirroring) as usize;
            let n = if size < VRAM_SIZE - v { size } else { VRAM_SIZE - v };
            copy_vec_to_front(dest, &self.vram, v, n);
        }
    }
}

} // verus!
