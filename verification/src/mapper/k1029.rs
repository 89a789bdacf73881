//! K-1029 multicart (mapper 15): one register whose address picks a mode
//! (32KB, 16KB+fixed, 8KB mirrored or 16KB mirrored) and whose value picks
//! the bank, its 8KB half and the mirroring; CHR RAM is write-protected in
//! modes 0 and 3.

use vstd::prelude::*;
use crate::bus::{NametableMirror, CPU_RAM_SIZE, VRAM_SIZE, PALETTE_SIZE, RESET_TARGET_ADDR, nt_offset, mirror_nametable_addr, palette_slot, palette_index, word, make_word};
use crate::ppu_bus::{zeroed, filled};
use crate::controller::Controller;
use crate::mapper::common::{new_controllers, split_16k_to_8k, copied_into, min_len, copy_vec_to_front};

use crate::savestate::{SavestateWriter, SavestateReader, StateError, enc_u8, enc_bool, enc_u16, dec_u16_at, stored_at, lemma_add_assoc, lemma_stored_split, lemma_stored_u8, lemma_stored_bool, lemma_stored_u16};
use crate::controller::{controllers_bytes, controller_at, save_controllers, take_controllers, lemma_stored_controllers, CONTROLLER_STATE_LEN};
use crate::ppu_bus::{mirror_code, mirror_from_code, mirroring_from_code, save_mirroring, lemma_mirror_code_roundtrip};

verus! {

pub const PRG_BANK_SIZE: usize = 0x2000;
pub const CHR_RAM_SIZE: usize = 0x2000;
pub const WRAM_SIZE: usize = 0x2000;

pub struct K1029Mapper {
    pub controllers: [Controller; 2],
    pub prg_rom: Vec<[u8; PRG_BANK_SIZE]>,
    pub prg_pages: [usize; 4],
    pub chr_write_protect: bool,
    pub mirroring: NametableMirror,
    pub chr_ram: Vec<u8>,
    pub wram: Vec<u8>,
    pub vram: Vec<u8>,
    pub cpu_ram: Vec<u8>,
    pub palette_ram: Vec<u8>,
}

/// The four 8KB PRG pages a register write selects.
pub open spec fn k1029_pages(addr: u16, value: u8) -> Seq<usize> {
    let sub = (value >> 7u8) as usize;
    let bank = ((value & 0x7F) as usize * 2) as usize;
    let mode = addr & 3;
    if mode == 0 {
        seq![bank ^ sub, ((bank + 1) as usize) ^ sub, ((bank + 2) as usize) ^ sub, ((bank + 3) as usize) ^ sub]
    } else if mode == 2 {
        let b = bank | sub;
        seq![b, b, b, b]
    } else {
        let b = bank | sub;
        let high = (if mode == 3 { b } else { b | 0x0E }) | sub;
        seq![b, (b + 1) as usize, high, (high + 1) as usize]
    }
}

impl K1029Mapper {
    pub open spec fn wf(&self) -> bool {
        &&& self.cpu_ram@.len() == CPU_RAM_SIZE
        &&& self.wram@.len() == WRAM_SIZE
        &&& self.chr_ram@.len() == CHR_RAM_SIZE
        &&& self.vram@.len() == VRAM_SIZE
        &&& self.palette_ram@.len() == PALETTE_SIZE
    }

    pub open spec fn spec_cpu_read(&self, addr: u16) -> u8 {
        if addr <= 0x1FFF {
            self.cpu_ram@[(addr as int) % 0x800]
        } else if 0x6000 <= addr <= 0x7FFF {
            self.wram@[addr - 0x6000]
        } else if addr >= 0x8000 {
            let len: int = if self.prg_rom@.len() == 0 { 1 } else { self.prg_rom@.len() as int };
            let bank = self.prg_pages@[((addr as int) / 0x2000) % 4] as int % len;
            if bank < self.prg_rom@.len() { self.prg_rom@[bank][(addr as int) % 0x2000] } else { 0 }
        } else {
            0
        }
    }

    pub open spec fn spec_ppu_read(&self, addr: u16) -> u8 {
        if addr <= 0x1FFF {
            self.chr_ram@[addr as int]
        } else if addr <= 0x3EFF {
            self.vram@[nt_offset(addr, self.mirroring)]
        } else if addr <= 0x3FFF {
            self.palette_ram@[palette_slot(addr)]
        } else {
            0
        }
    }

    /// Power-on is a write of 0 to $8000: mode 0, the first 32KB, vertical
    /// mirroring, CHR RAM protected.
    pub fn new(prg_banks_16k: Vec<[u8; 16384]>) -> (m: K1029Mapper)
        requires
            2 * prg_banks_16k@.len() <= usize::MAX,
        ensures
            m.wf(),
            m.prg_rom@.len() == 2 * prg_banks_16k@.len(),
            forall|i: int| 0 <= i < m.prg_rom@.len() ==> #[trigger] m.prg_rom@[i]@ == prg_banks_16k@[i / 2]@.subrange(
                (i % 2) * 8192,
                (i % 2) * 8192 + 8192,
            ),
            m.prg_pages@ == k1029_pages(0x8000, 0),
            m.chr_write_protect,
            m.mirroring == NametableMirror::Vertical,
            m.chr_ram@ == Seq::new(CHR_RAM_SIZE as nat, |i: int| 0u8),
            m.wram@ == Seq::new(WRAM_SIZE as nat, |i: int| 0u8),
            m.vram@ == Seq::new(VRAM_SIZE as nat, |i: int| 0u8),
            m.cpu_ram@ == Seq::new(CPU_RAM_SIZE as nat, |i: int| 0u8),
            m.palette_ram@ == Seq::new(PALETTE_SIZE as nat, |i: int| 0x0Fu8),
    {
        let prg_rom = split_16k_to_8k(&prg_banks_16k);
        let mut m = K1029Mapper {
            controllers: new_controllers(),
            prg_rom,
            prg_pages: [0, 1, 2, 3],
            chr_write_protect: true,
            mirroring: NametableMirror::Vertical,
            chr_ram: zeroed(CHR_RAM_SIZE),
            wram: zeroed(WRAM_SIZE),
            vram: zeroed(VRAM_SIZE),
            cpu_ram: zeroed(CPU_RAM_SIZE),
            palette_ram: filled(PALETTE_SIZE, 0x0F),
        };
        m.write_register(0x8000, 0);
        assert(0x8000u16 & 3 == 0 && 0u8 & 0x40 == 0) by (bit_vector);
        m
    }

    fn write_register(&mut self, addr: u16, value: u8)
        requires
            old(self).wf(),
        ensures
            final(self).wf(),
            final(self).prg_pages@ == k1029_pages(addr, value),
            final(self).chr_write_protect == (addr & 3 == 0 || addr & 3 == 3),
            final(self).mirroring == (if value & 0x40 != 0 { NametableMirror::Horizontal } else { NametableMirror::Vertical }),
            final(self).prg_rom == old(self).prg_rom,
            final(self).chr_ram == old(self).chr_ram,
            final(self).wram == old(self).wram,
            final(self).vram == old(self).vram,
            final(self).cpu_ram == old(self).cpu_ram,
            final(self).palette_ram == old(self).palette_ram,
            final(self).controllers == old(self).controllers,
    {
        self.mirroring = if value & 0x40 != 0 { NametableMirror::Horizontal } else { NametableMirror::Vertical };
        assert(value >> 7u8 <= 1 && value & 0x7F <= 127) by (bit_vector);
        let sub = (value >> 7) as usize;
        let bank = ((value & 0x7F) as usize) * 2;
        let mode = addr & 0x03;
        self.chr_write_protect = mode == 0 || mode == 3;
        if mode == 0 {
            self.prg_pages = [bank ^ sub, (bank + 1) ^ sub, (bank + 2) ^ sub, (bank + 3) ^ sub];
        } else if mode == 2 {
            let b = bank | sub;
            self.prg_pages = [b, b, b, b];
        } else {
            let b = bank | sub;
            assert(b <= 255) by (bit_vector)
                requires bank <= 254, sub <= 1, b == bank | sub;
            let high = (if mode == 3 { b } else { b | 0x0E }) | sub;
            assert(high <= 255) by (bit_vector)
                requires b <= 255, sub <= 1, high == (if mode == 3 { b } else { b | 0x0E }) | sub;
            self.prg_pages = [b, b + 1, high, high + 1];
        }
        assert(self.prg_pages@ == k1029_pages(addr, value));
    }

    pub fn cpu_peek(&self, addr: u16) -> (r: u8)
        requires
            self.wf(),
        ensures
            r == self.spec_cpu_read(addr),
    {
        if addr <= 0x1FFF {
            return self.cpu_ram[(addr % 0x800) as usize];
        }
        if 0x6000 <= addr && addr <= 0x7FFF {
            return self.wram[(addr - 0x6000) as usize];
        }
        if addr < 0x8000 {
            return 0;
        }
        let len = if self.prg_rom.len() == 0 { 1 } else { self.prg_rom.len() };
        let bank = self.prg_pages[((addr / 0x2000) % 4) as usize] % len;
        if bank < self.prg_rom.len() {
            self.prg_rom[bank][(addr % 0x2000) as usize]
        } else {
            0
        }
    }

    pub fn cpu_read(&self, addr: u16) -> (r: u8)
        requires
            self.wf(),
        ensures
            r == self.spec_cpu_read(addr),
    {
        self.cpu_peek(addr)
    }

    pub fn cpu_write(&mut self, addr: u16, value: u8)
        requires
            old(self).wf(),
        ensures
            final(self).wf(),
            addr <= 0x1FFF ==> final(self).cpu_ram@ == old(self).cpu_ram@.update((addr as int) % 0x800, value),
            addr > 0x1FFF ==> final(self).cpu_ram == old(self).cpu_ram,
            0x6000 <= addr <= 0x7FFF ==> final(self).wram@ == old(self).wram@.update(addr - 0x6000, value),
            !(0x6000 <= addr <= 0x7FFF) ==> final(self).wram == old(self).wram,
            addr >= 0x8000 ==> final(self).prg_pages@ == k1029_pages(addr, value)
                && final(self).chr_write_protect == (addr & 3 == 0 || addr & 3 == 3)
                && final(self).mirroring == (if value & 0x40 != 0 { NametableMirror::Horizontal } else { NametableMirror::Vertical }),
            addr < 0x8000 ==> final(self).prg_pages == old(self).prg_pages
                && final(self).chr_write_protect == old(self).chr_write_protect
                && final(self).mirroring == old(self).mirroring,
            final(self).prg_rom == old(self).prg_rom,
            final(self).chr_ram == old(self).chr_ram,
            final(self).vram == old(self).vram,
            final(self).palette_ram == old(self).palette_ram,
            final(self).controllers == old(self).controllers,
    {
        if addr <= 0x1FFF {
            self.cpu_ram.set((addr % 0x800) as usize, value);
        } else if 0x6000 <= addr && addr <= 0x7FFF {
            self.wram.set((addr - 0x6000) as usize, value);
        } else if addr >= 0x8000 {
            self.write_register(addr, value);
        }
    }

    pub fn ppu_read(&self, addr: u16) -> (r: u8)
        requires
            self.wf(),
        ensures
            r == self.spec_ppu_read(addr),
    {
        if addr <= 0x1FFF {
            self.chr_ram[addr as usize]
        } else if addr <= 0x3EFF {
            self.vram[mirror_nametable_addr(addr, self.mirroring) as usize]
        } else if addr <= 0x3FFF {
            self.palette_ram[palette_index(addr)]
        } else {
            0
        }
    }

    /// CHR RAM takes writes unless protected; nametables and palette.
    pub fn ppu_write(&mut self, addr: u16, value: u8)
        requires
            old(self).wf(),
        ensures
            final(self).wf(),
            addr <= 0x1FFF && !old(self).chr_write_protect ==> final(self).chr_ram@ == old(self).chr_ram@.update(addr as int, value),
            !(addr <= 0x1FFF && !old(self).chr_write_protect) ==> final(self).chr_ram == old(self).chr_ram,
            0x2000 <= addr <= 0x3EFF ==> final(self).vram@ == old(self).vram@.update(nt_offset(addr, old(self).mirroring), value),
            !(0x2000 <= addr <= 0x3EFF) ==> final(self).vram == old(self).vram,
            0x3F00 <= addr <= 0x3FFF ==> final(self).palette_ram@ == old(self).palette_ram@.update(palette_slot(addr), value),
            !(0x3F00 <= addr <= 0x3FFF) ==> final(self).palette_ram == old(self).palette_ram,
            final(self).cpu_ram == old(self).cpu_ram,
            final(self).wram == old(self).wram,
            final(self).prg_pages == old(self).prg_pages,
            final(self).chr_write_protect == old(self).chr_write_protect,
            final(self).mirroring == old(self).mirroring,
            final(self).prg_rom == old(self).prg_rom,
    {
        if addr <= 0x1FFF {
            if !self.chr_write_protect {
                self.chr_ram.set(addr as usize, value);
            }
        } else if addr <= 0x3EFF {
            let i = mirror_nametable_addr(addr, self.mirroring) as usize;
            self.vram.set(i, value);
        } else if addr <= 0x3FFF {
            let i = palette_index(addr);
            self.palette_ram.set(i, value);
        }
    }

    pub fn code_start(&self) -> (r: u16)
        requires
            self.wf(),
        ensures
            r == word(self.spec_cpu_read(RESET_TARGET_ADDR), self.spec_cpu_read(0xFFFD)),
    {
        make_word(self.cpu_peek(RESET_TARGET_ADDR), self.cpu_peek(RESET_TARGET_ADDR + 1))
    }

    pub fn poll_irq(&self) -> (r: bool)
        ensures
            !r,
    {
        false
    }

    pub fn mapper_id(&self) -> (r: u8)
        ensures
            r == 15,
    {
        15
    }
}

impl K1029Mapper {
    /// The bytes `save_state` appends.
    pub open spec fn state_bytes(&self) -> Seq<u8> {
        self.cpu_ram@
            + self.wram@
            + self.chr_ram@
            + self.vram@
            + self.palette_ram@
            + enc_u16(self.prg_pages@[0] as u16)
            + enc_u16(self.prg_pages@[1] as u16)
            + enc_u16(self.prg_pages@[2] as u16)
            + enc_u16(self.prg_pages@[3] as u16)
            + enc_bool(self.chr_write_protect)
            + enc_u8(mirror_code(self.mirroring))
            + controllers_bytes(self.controllers)
    }

    /// Length of the saved state.
    pub open spec fn state_len(&self) -> nat {
        (CPU_RAM_SIZE + WRAM_SIZE + CHR_RAM_SIZE + VRAM_SIZE + PALETTE_SIZE + 2 * CONTROLLER_STATE_LEN + 10) as nat
    }

    /// Every register that the state stores in fewer bits than it is held in
    /// fits in those bits.
    pub open spec fn fits(&self) -> bool {
        &&& self.prg_pages@[0] < 65536
        &&& self.prg_pages@[1] < 65536
        &&& self.prg_pages@[2] < 65536
        &&& self.prg_pages@[3] < 65536
    }

    /// The stored bytes at `p` hold a state that this cartridge can take.
    pub open spec fn state_valid(&self, d: Seq<u8>, p: int) -> bool {
        &&& mirror_from_code(d[(p + CPU_RAM_SIZE + WRAM_SIZE + CHR_RAM_SIZE + VRAM_SIZE + PALETTE_SIZE + 9)]) is Some
    }

    /// What `load_state` answers for the bytes at `p`.
    pub open spec fn load_outcome(&self, d: Seq<u8>, p: int) -> Result<(), StateError> {
        if p + self.state_len() > d.len() {
            Err(StateError::UnexpectedEof)
        } else if !self.state_valid(d, p) {
            Err(StateError::InvalidValue)
        } else {
            Ok(())
        }
    }

    /// Every saved field holds what the bytes at `p` store.
    pub open spec fn loaded_from(&self, d: Seq<u8>, p: int) -> bool {
        &&& self.cpu_ram@ == d.subrange(p, p + CPU_RAM_SIZE)
        &&& self.wram@ == d.subrange((p + CPU_RAM_SIZE), (p + CPU_RAM_SIZE) + WRAM_SIZE)
        &&& self.chr_ram@ == d.subrange((p + CPU_RAM_SIZE + WRAM_SIZE), (p + CPU_RAM_SIZE + WRAM_SIZE) + CHR_RAM_SIZE)
        &&& self.vram@ == d.subrange((p + CPU_RAM_SIZE + WRAM_SIZE + CHR_RAM_SIZE), (p + CPU_RAM_SIZE + WRAM_SIZE + CHR_RAM_SIZE) + VRAM_SIZE)
        &&& self.palette_ram@ == d.subrange((p + CPU_RAM_SIZE + WRAM_SIZE + CHR_RAM_SIZE + VRAM_SIZE), (p + CPU_RAM_SIZE + WRAM_SIZE + CHR_RAM_SIZE + VRAM_SIZE) + PALETTE_SIZE)
        &&& self.prg_pages@[0] == dec_u16_at(d, (p + CPU_RAM_SIZE + WRAM_SIZE + CHR_RAM_SIZE + VRAM_SIZE + PALETTE_SIZE)) as usize
        &&& self.prg_pages@[1] == dec_u16_at(d, (p + CPU_RAM_SIZE + WRAM_SIZE + CHR_RAM_SIZE + VRAM_SIZE + PALETTE_SIZE + 2)) as usize
        &&& self.prg_pages@[2] == dec_u16_at(d, (p + CPU_RAM_SIZE + WRAM_SIZE + CHR_RAM_SIZE + VRAM_SIZE + PALETTE_SIZE + 4)) as usize
        &&& self.prg_pages@[3] == dec_u16_at(d, (p + CPU_RAM_SIZE + WRAM_SIZE + CHR_RAM_SIZE + VRAM_SIZE + PALETTE_SIZE + 6)) as usize
        &&& self.chr_write_protect == (d[(p + CPU_RAM_SIZE + WRAM_SIZE + CHR_RAM_SIZE + VRAM_SIZE + PALETTE_SIZE + 8)] != 0)
        &&& self.mirroring == mirror_from_code(d[(p + CPU_RAM_SIZE + WRAM_SIZE + CHR_RAM_SIZE + VRAM_SIZE + PALETTE_SIZE + 9)])->0
        &&& self.controllers@[0] == controller_at(d, (p + CPU_RAM_SIZE + WRAM_SIZE + CHR_RAM_SIZE + VRAM_SIZE + PALETTE_SIZE + 10))
        &&& self.controllers@[1] == controller_at(d, (p + CPU_RAM_SIZE + WRAM_SIZE + CHR_RAM_SIZE + VRAM_SIZE + PALETTE_SIZE + 10) + CONTROLLER_STATE_LEN)
    }

    /// The two agree on every saved field.
    pub open spec fn same_state(&self, other: &Self) -> bool {
        &&& self.cpu_ram@ == other.cpu_ram@
        &&& self.wram@ == other.wram@
        &&& self.chr_ram@ == other.chr_ram@
        &&& self.vram@ == other.vram@
        &&& self.palette_ram@ == other.palette_ram@
        &&& self.prg_pages@[0] == other.prg_pages@[0]
        &&& self.prg_pages@[1] == other.prg_pages@[1]
        &&& self.prg_pages@[2] == other.prg_pages@[2]
        &&& self.prg_pages@[3] == other.prg_pages@[3]
        &&& self.chr_write_protect == other.chr_write_protect
        &&& self.mirroring == other.mirroring
        &&& self.controllers@ == other.controllers@
    }

    /// The two agree on every field that the state does not store.
    pub open spec fn keeps_unsaved(&self, other: &Self) -> bool {
        &&& self.prg_rom == other.prg_rom
    }

    /// The two come from cartridges of the same shape.
    pub open spec fn same_layout(&self, other: &Self) -> bool {
        true
    }

    #[verifier::spinoff_prover]
    pub fn save_state(&self, w: &mut SavestateWriter)
        ensures
            final(w).buf@ == old(w).buf@ + self.state_bytes(),
    {
        let ghost b = w.buf@;
        let ghost s0 = self.cpu_ram@;
        let ghost s1 = s0 + self.wram@;
        let ghost s2 = s1 + self.chr_ram@;
        let ghost s3 = s2 + self.vram@;
        let ghost s4 = s3 + self.palette_ram@;
        let ghost s5 = s4 + enc_u16(self.prg_pages@[0] as u16);
        let ghost s6 = s5 + enc_u16(self.prg_pages@[1] as u16);
        let ghost s7 = s6 + enc_u16(self.prg_pages@[2] as u16);
        let ghost s8 = s7 + enc_u16(self.prg_pages@[3] as u16);
        let ghost s9 = s8 + enc_bool(self.chr_write_protect);
        let ghost s10 = s9 + enc_u8(mirror_code(self.mirroring));
        let ghost s11 = s10 + controllers_bytes(self.controllers);
        w.write_bytes(self.cpu_ram.as_slice());
        w.write_bytes(self.wram.as_slice());
        proof {
            lemma_add_assoc(b, s0, self.wram@);
        }
        w.write_bytes(self.chr_ram.as_slice());
        proof {
            lemma_add_assoc(b, s1, self.chr_ram@);
        }
        w.write_bytes(self.vram.as_slice());
        proof {
            lemma_add_assoc(b, s2, self.vram@);
        }
        w.write_bytes(self.palette_ram.as_slice());
        proof {
            lemma_add_assoc(b, s3, self.palette_ram@);
        }
        w.write_u16(self.prg_pages[0] as u16);
        proof {
            lemma_add_assoc(b, s4, enc_u16(self.prg_pages@[0] as u16));
        }
        w.write_u16(self.prg_pages[1] as u16);
        proof {
            lemma_add_assoc(b, s5, enc_u16(self.prg_pages@[1] as u16));
        }
        w.write_u16(self.prg_pages[2] as u16);
        proof {
            lemma_add_assoc(b, s6, enc_u16(self.prg_pages@[2] as u16));
        }
        w.write_u16(self.prg_pages[3] as u16);
        proof {
            lemma_add_assoc(b, s7, enc_u16(self.prg_pages@[3] as u16));
        }
        w.write_bool(self.chr_write_protect);
        proof {
            lemma_add_assoc(b, s8, enc_bool(self.chr_write_protect));
        }
        save_mirroring(w, self.mirroring);
        proof {
            lemma_add_assoc(b, s9, enc_u8(mirror_code(self.mirroring)));
        }
        save_controllers(w, &self.controllers);
        proof {
            lemma_add_assoc(b, s10, controllers_bytes(self.controllers));
        }
    }

    /// Restores a state written by `save_state`. Nothing changes unless the
    /// whole state is there and holds values this cartridge can take.
    #[verifier::spinoff_prover]
    pub fn load_state(&mut self, r: &mut SavestateReader) -> (res: Result<(), StateError>)
        requires
            old(self).wf(),
            old(r).wf(),
        ensures
            final(r).wf(),
            final(r).data@ == old(r).data@,
            res == old(self).load_outcome(old(r).data@, old(r).pos as int),
            res is Err ==> *final(self) == *old(self) && final(r).pos == old(r).pos,
            res is Ok ==> final(self).wf() && final(self).loaded_from(old(r).data@, old(r).pos as int)
                && final(self).keeps_unsaved(&*old(self)) && final(self).same_layout(&*old(self))
                && final(r).pos == old(r).pos + old(self).state_len(),
    {
        let ghost d = r.data@;
        let ghost p = r.pos as int;
        let start = r.pos;
        if r.remaining_len() < CPU_RAM_SIZE + WRAM_SIZE + CHR_RAM_SIZE + VRAM_SIZE + PALETTE_SIZE + 2 * CONTROLLER_STATE_LEN + 10 {
            return Err(StateError::UnexpectedEof);
        }
        let cpu_ram = r.take_bytes(CPU_RAM_SIZE);
        let wram = r.take_bytes(WRAM_SIZE);
        let chr_ram = r.take_bytes(CHR_RAM_SIZE);
        let vram = r.take_bytes(VRAM_SIZE);
        let palette_ram = r.take_bytes(PALETTE_SIZE);
        let page0 = r.take_u16() as usize;
        let page1 = r.take_u16() as usize;
        let page2 = r.take_u16() as usize;
        let page3 = r.take_u16() as usize;
        let chr_write_protect = r.take_bool();
        let mirroring_code = r.take_u8();
        let controllers = take_controllers(r);
        let mirroring = match mirroring_from_code(mirroring_code) {
            Some(m) => m,
            None => {
                r.rewind(start);
                return Err(StateError::InvalidValue);
            },
        };
        self.cpu_ram = cpu_ram;
        self.wram = wram;
        self.chr_ram = chr_ram;
        self.vram = vram;
        self.palette_ram = palette_ram;
        self.chr_write_protect = chr_write_protect;
        self.mirroring = mirroring;
        self.controllers = controllers;
        self.prg_pages = [page0, page1, page2, page3];
        Ok(())
    }

    /// Saving a state and loading it into a cartridge of the same shape
    /// succeeds and restores every saved field.
    #[verifier::spinoff_prover]
    pub proof fn lemma_state_roundtrip(o: Self, m: Self, n: Self, d: Seq<u8>, p: int)
        requires
            o.wf(),
            m.wf(),
            m.fits(),
            o.same_layout(&m),
            n.same_layout(&m),
            stored_at(d, p, m.state_bytes()),
        ensures
            o.load_outcome(d, p) == Ok::<(), StateError>(()),
            n.loaded_from(d, p) ==> n.same_state(&m),
    {
        let s0 = m.cpu_ram@;
        let s1 = s0 + m.wram@;
        let s2 = s1 + m.chr_ram@;
        let s3 = s2 + m.vram@;
        let s4 = s3 + m.palette_ram@;
        let s5 = s4 + enc_u16(m.prg_pages@[0] as u16);
        let s6 = s5 + enc_u16(m.prg_pages@[1] as u16);
        let s7 = s6 + enc_u16(m.prg_pages@[2] as u16);
        let s8 = s7 + enc_u16(m.prg_pages@[3] as u16);
        let s9 = s8 + enc_bool(m.chr_write_protect);
        let s10 = s9 + enc_u8(mirror_code(m.mirroring));
        let s11 = s10 + controllers_bytes(m.controllers);
        lemma_stored_split(d, p, s10, controllers_bytes(m.controllers));
        lemma_stored_split(d, p, s9, enc_u8(mirror_code(m.mirroring)));
        lemma_stored_split(d, p, s8, enc_bool(m.chr_write_protect));
        lemma_stored_split(d, p, s7, enc_u16(m.prg_pages@[3] as u16));
        lemma_stored_split(d, p, s6, enc_u16(m.prg_pages@[2] as u16));
        lemma_stored_split(d, p, s5, enc_u16(m.prg_pages@[1] as u16));
        lemma_stored_split(d, p, s4, enc_u16(m.prg_pages@[0] as u16));
        lemma_stored_split(d, p, s3, m.palette_ram@);
        lemma_stored_split(d, p, s2, m.vram@);
        lemma_stored_split(d, p, s1, m.chr_ram@);
        lemma_stored_split(d, p, s0, m.wram@);
        lemma_stored_u16(d, (p + CPU_RAM_SIZE + WRAM_SIZE + CHR_RAM_SIZE + VRAM_SIZE + PALETTE_SIZE), m.prg_pages@[0] as u16);
        lemma_stored_u16(d, (p + CPU_RAM_SIZE + WRAM_SIZE + CHR_RAM_SIZE + VRAM_SIZE + PALETTE_SIZE + 2), m.prg_pages@[1] as u16);
        lemma_stored_u16(d, (p + CPU_RAM_SIZE + WRAM_SIZE + CHR_RAM_SIZE + VRAM_SIZE + PALETTE_SIZE + 4), m.prg_pages@[2] as u16);
        lemma_stored_u16(d, (p + CPU_RAM_SIZE + WRAM_SIZE + CHR_RAM_SIZE + VRAM_SIZE + PALETTE_SIZE + 6), m.prg_pages@[3] as u16);
        lemma_stored_bool(d, (p + CPU_RAM_SIZE + WRAM_SIZE + CHR_RAM_SIZE + VRAM_SIZE + PALETTE_SIZE + 8), m.chr_write_protect);
        lemma_stored_u8(d, (p + CPU_RAM_SIZE + WRAM_SIZE + CHR_RAM_SIZE + VRAM_SIZE + PALETTE_SIZE + 9), mirror_code(m.mirroring));
        lemma_mirror_code_roundtrip(m.mirroring);
        lemma_stored_controllers(d, (p + CPU_RAM_SIZE + WRAM_SIZE + CHR_RAM_SIZE + VRAM_SIZE + PALETTE_SIZE + 10), m.controllers);
        if n.loaded_from(d, p) {
            assert(n.controllers@ =~= m.controllers@);
        }
    }
}

impl K1029Mapper {
    /// Where a bulk copy of `size` bytes from `addr` reads: the CHR RAM from the address up to its end, or the
    /// nametable RAM up to its end.
    pub open spec fn copy_run(&self, addr: u16, size: int) -> Option<(Seq<u8>, int, int)> {
        if addr <= 0x1FFF {
            let o = addr as int;
            Some((self.chr_ram@, o, min_len(size, CHR_RAM_SIZE - o)))
        } else if addr <= 0x3EFF {
            let v = nt_offset(addr, self.mirroring);
            Some((self.vram@, v, min_len(size, VRAM_SIZE - v)))
        } else {
            None
        }
    }

    /// Copies up to `size` bytes of PPU memory from `addr` to the front of
    /// `dest`, from one run of the memory behind that address.
    pub fn ppu_copy(&self, addr: u16, dest: &mut Vec<u8>, size: usize)
        requires
            self.wf(),
            size <= old(dest)@.len(),
        ensures
            match self.copy_run(addr, size as int) {
                Some((src, off, n)) => final(dest)@ == copied_into(old(dest)@, src, off, n),
                None => final(dest)@ == old(dest)@,
            },
    {
        if addr <= 0x1FFF {
            let o = addr as usize;
            let n = if size < CHR_RAM_SIZE - o { size } else { CHR_RAM_SIZE - o };
            copy_vec_to_front(dest, &self.chr_ram, o, n);
        } else if addr <= 0x3EFF {
            let v = mirror_nametable_addr(addr, self.mirroring) as usize;
            let n = if size < VRAM_SIZE - v { size } else { VRAM_SIZE - v };
            copy_vec_to_front(dest, &self.vram, v, n);
        }
    }
}

} // verus!
