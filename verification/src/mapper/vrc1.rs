//! Konami VRC1 (mapper 75): three switchable 8KB PRG slots and the last
//! 8KB page fixed at $E000, two 4KB CHR pages with a fifth bank bit each.

use vstd::prelude::*;
use crate::bus::{NametableMirror, LOW_SPACE_SIZE, VRAM_SIZE, PALETTE_SIZE, RESET_TARGET_ADDR, spec_mirror_addr, mirror_addr, spec_addr_to_page, addr_to_page, spec_mirroring_from_flags, mirroring_from_flags, low_after_write, low_write, word, make_word};
use crate::ppu_bus::{PpuBus, PpuView, zeroed};
use crate::controller::Controller;
use crate::mapper::common::new_controllers;

use crate::savestate::{SavestateWriter, SavestateReader, StateError, enc_u8, enc_bool, stored_at, lemma_add_assoc, lemma_stored_split, lemma_stored_u8, lemma_stored_bool, copy_into_array};
use crate::controller::{controllers_bytes, controller_at, save_controllers, take_controllers, lemma_stored_controllers, CONTROLLER_STATE_LEN};
use crate::ppu_bus::{mirror_code, mirror_from_code, mirroring_from_code, save_mirroring, lemma_mirror_code_roundtrip};

verus! {

pub const PRG_8K: usize = 8 * 1024;
pub const CHR_4K: usize = 4 * 1024;

pub struct Vrc1Mapper {
    pub ram: Vec<u8>,
    pub prg_16k: Vec<[u8; 16384]>,
    pub chr_8k: Vec<[u8; 8192]>,
    pub prg_select: [u8; 3],
    /// The 8KB page shown in each switchable slot.
    pub prg_map: [usize; 3],
    pub chr_lo: u8,
    pub chr_hi: u8,
    pub chr_lo_high_bit: u8,
    pub chr_hi_high_bit: u8,
    pub ppu: PpuBus,
    pub controllers: [Controller; 2],
}

/// Byte `off` of 8KB page `page` of a set of 16KB banks.
pub open spec fn page8k(prg: Seq<[u8; 16384]>, page: int, off: int) -> u8 {
    prg[page / 2][(page % 2) * 0x2000 + off]
}

/// The 4KB CHR page `page` of a set of 8KB banks.
pub open spec fn page4k(chr: Seq<[u8; 8192]>, page: int) -> Seq<u8> {
    chr[page / 2]@.subrange((page % 2) * 0x1000, (page % 2) * 0x1000 + 0x1000)
}

impl Vrc1Mapper {
    pub open spec fn pages(&self) -> int {
        2 * (self.prg_16k@.len() as int)
    }

    pub open spec fn wf(&self) -> bool {
        &&& self.ram@.len() == LOW_SPACE_SIZE
        &&& self.prg_16k@.len() > 0
        &&& 2 * self.prg_16k@.len() <= usize::MAX
        &&& 2 * self.chr_8k@.len() <= usize::MAX
        &&& forall|i: int| 0 <= i < 3 ==> self.prg_map@[i] < self.pages()
        &&& self.ppu.wf()
    }

    pub open spec fn spec_cpu_read(&self, addr: u16) -> u8 {
        let a = spec_mirror_addr(addr);
        if a < 0x8000 {
            self.ram@[a as int]
        } else {
            let slot = (a - 0x8000) / 0x2000;
            let page = if slot == 3 { self.pages() - 1 } else { self.prg_map@[slot] as int };
            page8k(self.prg_16k@, page, (a % 0x2000) as int)
        }
    }

    /// The CHR window built from the two page registers and their high bits.
    pub open spec fn chr_window(&self) -> Seq<u8> {
        let n = 2 * (self.chr_8k@.len() as int);
        let lo = ((self.chr_lo_high_bit as int) * 16 + self.chr_lo as int) % n;
        let hi = ((self.chr_hi_high_bit as int) * 16 + self.chr_hi as int) % n;
        page4k(self.chr_8k@, lo) + page4k(self.chr_8k@, hi)
    }

    /// What `new` builds from its arguments.
    pub open spec fn built_by_new(flags: u8, prg_banks_16k: Vec<[u8; 16384]>, chr_banks_8k: Vec<[u8; 8192]>, m: Vrc1Mapper) -> bool {
        &&& (m.wf())
        &&& (m.prg_16k@ == prg_banks_16k@)
        &&& (m.chr_8k@ == chr_banks_8k@)
        &&& (m.prg_select@ == seq![0u8, 1u8, 2u8])
        &&& (m.prg_map@ == seq![0usize, 1usize, if 2 * prg_banks_16k@.len() > 2 { 2usize } else { 1usize }])
        &&& (m.chr_lo == 0 && m.chr_hi == 0 && m.chr_lo_high_bit == 0 && m.chr_hi_high_bit == 0)
        &&& (m.ram@ == Seq::new(LOW_SPACE_SIZE as nat, |i: int| 0u8))
        &&& (m.ppu.mirroring == spec_mirroring_from_flags(flags))
        &&& (chr_banks_8k@.len() == 0 ==> m.ppu@ == (PpuView {
                chr: Seq::new(8192 as nat, |i: int| 0u8),
                chr_is_ram: true,
                vram: Seq::new(VRAM_SIZE as nat, |i: int| 0u8),
                palette: Seq::new(PALETTE_SIZE as nat, |i: int| 0u8),
                mirroring: spec_mirroring_from_flags(flags),
            }))
        &&& (chr_banks_8k@.len() > 0 ==> m.ppu.chr@ == chr_banks_8k@[0]@ && !m.ppu.chr_is_ram)
    }

    /// Powers on showing pages 0, 1 and 2 (capped at the last page) and the
    /// first CHR bank, or 8KB of CHR RAM when the cartridge has no CHR ROM.
    pub fn new(flags: u8, prg_banks_16k: Vec<[u8; 16384]>, chr_banks_8k: Vec<[u8; 8192]>) -> (m: Vrc1Mapper)
        requires
            prg_banks_16k@.len() > 0,
            2 * prg_banks_16k@.len() <= usize::MAX,
            2 * chr_banks_8k@.len() <= usize::MAX,
        ensures
            m.wf(),
            m.prg_16k@ == prg_banks_16k@,
            m.chr_8k@ == chr_banks_8k@,
            m.prg_select@ == seq![0u8, 1u8, 2u8],
            m.prg_map@ == seq![0usize, 1usize, if 2 * prg_banks_16k@.len() > 2 { 2usize } else { 1usize }],
            m.chr_lo == 0 && m.chr_hi == 0 && m.chr_lo_high_bit == 0 && m.chr_hi_high_bit == 0,
            m.ram@ == Seq::new(LOW_SPACE_SIZE as nat, |i: int| 0u8),
            m.ppu.mirroring == spec_mirroring_from_flags(flags),
            chr_banks_8k@.len() == 0 ==> m.ppu@ == (PpuView {
                chr: Seq::new(8192 as nat, |i: int| 0u8),
                chr_is_ram: true,
                vram: Seq::new(VRAM_SIZE as nat, |i: int| 0u8),
                palette: Seq::new(PALETTE_SIZE as nat, |i: int| 0u8),
                mirroring: spec_mirroring_from_flags(flags),
            }),
            chr_banks_8k@.len() > 0 ==> m.ppu.chr@ == chr_banks_8k@[0]@ && !m.ppu.chr_is_ram,
            Self::built_by_new(flags, prg_banks_16k, chr_banks_8k, m),
    {
        let n = prg_banks_16k.len() * 2;
        let third: usize = if n > 2 { 2 } else { 1 };
        let mirroring = mirroring_from_flags(flags);
        let ppu = if chr_banks_8k.len() == 0 {
            PpuBus::new_ram(8192, mirroring)
        } else {
            PpuBus::new_rom(&chr_banks_8k[0], mirroring)
        };
        Vrc1Mapper {
            ram: zeroed(LOW_SPACE_SIZE),
            prg_16k: prg_banks_16k,
            chr_8k: chr_banks_8k,
            prg_select: [0, 1, 2],
            prg_map: [0, 1, third],
            chr_lo: 0,
            chr_hi: 0,
            chr_lo_high_bit: 0,
            chr_hi_high_bit: 0,
            ppu,
            controllers: new_controllers(),
        }
    }

    pub fn cpu_read(&self, addr: u16) -> (r: u8)
        requires
            self.wf(),
        ensures
            r == self.spec_cpu_read(addr),
    {
        let a = mirror_addr(addr);
        if a < 0x8000 {
            self.ram[a as usize]
        } else {
            let slot = ((a - 0x8000) / 0x2000) as usize;
            let page = if slot == 3 { self.prg_16k.len() * 2 - 1 } else { self.prg_map[slot] };
            self.prg_16k[page / 2][(page % 2) * 0x2000 + (a % 0x2000) as usize]
        }
    }

    pub fn cpu_peek(&self, addr: u16) -> (r: u8)
        requires
            self.wf(),
        ensures
            r == self.spec_cpu_read(addr),
    {
        self.cpu_read(addr)
    }

    fn switch_prg_8k(&mut self, slot: usize, bank: u8)
        requires
            old(self).wf(),
            slot < 3,
        ensures
            final(self).wf(),
            final(self).prg_select@ == old(self).prg_select@.update(slot as int, bank),
            final(self).prg_map@ == old(self).prg_map@.update(slot as int, (bank as int % old(self).pages()) as usize),
            final(self).ram == old(self).ram,
            final(self).prg_16k == old(self).prg_16k,
            final(self).chr_8k == old(self).chr_8k,
            final(self).chr_lo == old(self).chr_lo,
            final(self).chr_hi == old(self).chr_hi,
            final(self).chr_lo_high_bit == old(self).chr_lo_high_bit,
            final(self).chr_hi_high_bit == old(self).chr_hi_high_bit,
            final(self).ppu == old(self).ppu,
            final(self).controllers == old(self).controllers,
    {
        let index = (bank as usize) % (self.prg_16k.len() * 2);
        self.prg_select[slot] = bank;
        self.prg_map[slot] = index;
    }

    fn rebuild_chr(&mut self)
        requires
            old(self).wf(),
        ensures
            final(self).wf(),
            old(self).chr_8k@.len() > 0 ==> final(self).ppu.chr@ == old(self).chr_window(),
            old(self).chr_8k@.len() == 0 ==> final(self).ppu.chr == old(self).ppu.chr,
            final(self).ppu.vram == old(self).ppu.vram,
            final(self).ppu.palette == old(self).ppu.palette,
            final(self).ppu.mirroring == old(self).ppu.mirroring,
            final(self).ppu.chr_is_ram == old(self).ppu.chr_is_ram,
            final(self).ram == old(self).ram,
            final(self).prg_16k == old(self).prg_16k,
            final(self).chr_8k == old(self).chr_8k,
            final(self).prg_select == old(self).prg_select,
            final(self).prg_map == old(self).prg_map,
            final(self).chr_lo == old(self).chr_lo,
            final(self).chr_hi == old(self).chr_hi,
            final(self).chr_lo_high_bit == old(self).chr_lo_high_bit,
            final(self).chr_hi_high_bit == old(self).chr_hi_high_bit,
            final(self).controllers == old(self).controllers,
    {
        if self.chr_8k.len() == 0 {
            return;
        }
        let n = self.chr_8k.len() * 2;
        let lo = ((self.chr_lo_high_bit as usize) * 16 + self.chr_lo as usize) % n;
        let hi = ((self.chr_hi_high_bit as usize) * 16 + self.chr_hi as usize) % n;
        let window = crate::ppu_bus::join_halves(
            &self.chr_8k[lo / 2],
            (lo % 2) * 0x1000,
            &self.chr_8k[hi / 2],
            (hi % 2) * 0x1000,
        );
        self.ppu.set_chr(window);
    }

    /// $8000/$A000/$C000 select the 8KB page of slots 0-2; $9000 sets
    /// mirroring (bit 0: horizontal) and the CHR high bits (bits 1, 2);
    /// $E000/$F000 the 4KB CHR pages. RAM lives up to $7FFF.
    pub fn cpu_write(&mut self, addr: u16, value: u8)
        requires
            old(self).wf(),
        ensures
            final(self).wf(),
            final(self).prg_16k == old(self).prg_16k,
            final(self).chr_8k == old(self).chr_8k,
            final(self).controllers == old(self).controllers,
            final(self).ppu.vram == old(self).ppu.vram,
            final(self).ppu.palette == old(self).ppu.palette,
            ({
                let a = spec_mirror_addr(addr);
                let page = spec_addr_to_page(a);
                &&& a < 0x8000 && (page == 0x00 || page == 0x10 || page == 0x60 || page == 0x70) ==> final(self).ram@
                    == old(self).ram@.update(a as int, value)
                &&& !(a < 0x8000 && (page == 0x00 || page == 0x10 || page == 0x60 || page == 0x70)) ==> final(self).ram
                    == old(self).ram
                &&& page == 0x80 ==> final(self).prg_map@[0] as int == (value & 0x0F) as int % old(self).pages()
                &&& page == 0xA0 ==> final(self).prg_map@[1] as int == (value & 0x0F) as int % old(self).pages()
                &&& page == 0xC0 ==> final(self).prg_map@[2] as int == (value & 0x0F) as int % old(self).pages()
                &&& page != 0x80 && page != 0xA0 && page != 0xC0 ==> final(self).prg_map == old(self).prg_map
                &&& page == 0x90 ==> final(self).ppu.mirroring == (if value & 1 != 0 {
                    NametableMirror::Horizontal
                } else {
                    NametableMirror::Vertical
                }) && final(self).chr_lo_high_bit == (value >> 1u8) & 1 && final(self).chr_hi_high_bit
                    == (value >> 2u8) & 1
                &&& page != 0x90 ==> final(self).ppu.mirroring == old(self).ppu.mirroring
                &&& page == 0xE0 ==> final(self).chr_lo == value & 0x0F
                &&& page == 0xF0 ==> final(self).chr_hi == value & 0x0F
                &&& (page == 0x90 || page == 0xE0 || page == 0xF0) && old(self).chr_8k@.len() > 0
                    ==> final(self).ppu.chr@ == final(self).chr_window()
                &&& !(page == 0x90 || page == 0xE0 || page == 0xF0) ==> final(self).ppu.chr == old(self).ppu.chr
            }),
    {
        let a = mirror_addr(addr);
        let page = addr_to_page(a);
        if a < 0x8000 {
            if page == 0x00 || page == 0x10 || page == 0x60 || page == 0x70 {
                self.ram.set(a as usize, value);
            }
        } else if page == 0x80 {
            self.switch_prg_8k(0, value & 0x0F);
        } else if page == 0x90 {
            self.ppu.mirroring = if value & 1 != 0 {
                NametableMirror::Horizontal
            } else {
                NametableMirror::Vertical
            };
            self.chr_lo_high_bit = (value >> 1) & 1;
            self.chr_hi_high_bit = (value >> 2) & 1;
            self.rebuild_chr();
        } else if page == 0xA0 {
            self.switch_prg_8k(1, value & 0x0F);
        } else if page == 0xC0 {
            self.switch_prg_8k(2, value & 0x0F);
        } else if page == 0xE0 {
            self.chr_lo = value & 0x0F;
            self.rebuild_chr();
        } else if page == 0xF0 {
            self.chr_hi = value & 0x0F;
            self.rebuild_chr();
        }
    }

    pub fn ppu_read(&self, addr: u16) -> (r: u8)
        requires
            self.wf(),
        ensures
            r == self.ppu@.read(addr),
    {
        self.ppu.read(addr)
    }

    pub fn ppu_write(&mut self, addr: u16, value: u8)
        requires
            old(self).wf(),
        ensures
            final(self).wf(),
            final(self).ppu@ == old(self).ppu@.write(addr, value),
            final(self).ram == old(self).ram,
            final(self).prg_16k == old(self).prg_16k,
            final(self).chr_8k == old(self).chr_8k,
            final(self).prg_map == old(self).prg_map,
            final(self).prg_select == old(self).prg_select,
    {
        self.ppu.write(addr, value);
    }

    pub fn code_start(&self) -> (r: u16)
        requires
            self.wf(),
        ensures
            r == word(self.spec_cpu_read(RESET_TARGET_ADDR), self.spec_cpu_read(0xFFFD)),
    {
        make_word(self.cpu_read(RESET_TARGET_ADDR), self.cpu_read(RESET_TARGET_ADDR + 1))
    }

    pub fn poll_irq(&self) -> (r: bool)
        ensures
            !r,
    {
        false
    }

    pub fn mapper_id(&self) -> (r: u8)
        ensures
            r == 75,
    {
        75
    }
}

impl Vrc1Mapper {
    /// The bytes `save_state` appends.
    pub open spec fn state_bytes(&self) -> Seq<u8> {
        self.ram@
            + self.ppu.chr@
            + self.ppu.vram@
            + self.ppu.palette@
            + enc_bool(self.ppu.chr_is_ram)
            + enc_u8(mirror_code(self.ppu.mirroring))
            + self.prg_select@
            + enc_u8(self.prg_map@[0] as u8)
            + enc_u8(self.prg_map@[1] as u8)
            + enc_u8(self.prg_map@[2] as u8)
            + enc_u8(self.chr_lo)
            + enc_u8(self.chr_hi)
            + enc_u8(self.chr_lo_high_bit)
            + enc_u8(self.chr_hi_high_bit)
            + enc_u8(mirror_code(self.ppu.mirroring))
            + controllers_bytes(self.controllers)
    }

    /// Length of the saved state.
    pub open spec fn state_len(&self) -> nat {
        (LOW_SPACE_SIZE + self.ppu.chr@.len() + VRAM_SIZE + PALETTE_SIZE + 2 * CONTROLLER_STATE_LEN + 13) as nat
    }

    /// Every register that the state stores in fewer bits than it is held in
    /// fits in those bits.
    pub open spec fn fits(&self) -> bool {
        &&& self.prg_map@[0] < 256
        &&& self.prg_map@[1] < 256
        &&& self.prg_map@[2] < 256
    }

    /// The stored bytes at `p` hold a state that this cartridge can take.
    pub open spec fn state_valid(&self, d: Seq<u8>, p: int) -> bool {
        &&& mirror_from_code(d[(p + LOW_SPACE_SIZE + self.ppu.chr@.len() + VRAM_SIZE + PALETTE_SIZE + 1)]) is Some
        &&& (d[(p + LOW_SPACE_SIZE + self.ppu.chr@.len() + VRAM_SIZE + PALETTE_SIZE + 5)] as usize) < 2 * self.prg_16k@.len()
        &&& (d[(p + LOW_SPACE_SIZE + self.ppu.chr@.len() + VRAM_SIZE + PALETTE_SIZE + 6)] as usize) < 2 * self.prg_16k@.len()
        &&& (d[(p + LOW_SPACE_SIZE + self.ppu.chr@.len() + VRAM_SIZE + PALETTE_SIZE + 7)] as usize) < 2 * self.prg_16k@.len()
        &&& mirror_from_code(d[(p + LOW_SPACE_SIZE + self.ppu.chr@.len() + VRAM_SIZE + PALETTE_SIZE + 12)]) is Some
    }

    /// What `load_state` answers for the bytes at `p`.
    pub open spec fn load_outcome(&self, d: Seq<u8>, p: int) -> Result<(), StateError> {
        if p + self.state_len() > d.len() {
            Err(StateError::UnexpectedEof)
        } else if !self.state_valid(d, p) {
            Err(StateError::InvalidValue)
        } else {
            Ok(())
        }
    }

    /// Every saved field holds what the bytes at `p` store.
    pub open spec fn loaded_from(&self, d: Seq<u8>, p: int) -> bool {
        &&& self.ram@ == d.subrange(p, p + LOW_SPACE_SIZE)
        &&& self.ppu.chr@ == d.subrange((p + LOW_SPACE_SIZE), (p + LOW_SPACE_SIZE) + self.ppu.chr@.len())
        &&& self.ppu.vram@ == d.subrange((p + LOW_SPACE_SIZE + self.ppu.chr@.len()), (p + LOW_SPACE_SIZE + self.ppu.chr@.len()) + VRAM_SIZE)
        &&& self.ppu.palette@ == d.subrange((p + LOW_SPACE_SIZE + self.ppu.chr@.len() + VRAM_SIZE), (p + LOW_SPACE_SIZE + self.ppu.chr@.len() + VRAM_SIZE) + PALETTE_SIZE)
        &&& self.ppu.chr_is_ram == (d[(p + LOW_SPACE_SIZE + self.ppu.chr@.len() + VRAM_SIZE + PALETTE_SIZE)] != 0)
        &&& self.prg_select@ == d.subrange((p + LOW_SPACE_SIZE + self.ppu.chr@.len() + VRAM_SIZE + PALETTE_SIZE + 2), (p + LOW_SPACE_SIZE + self.ppu.chr@.len() + VRAM_SIZE + PALETTE_SIZE + 2) + 3)
        &&& self.prg_map@[0] == d[(p + LOW_SPACE_SIZE + self.ppu.chr@.len() + VRAM_SIZE + PALETTE_SIZE + 5)] as usize
        &&& self.prg_map@[1] == d[(p + LOW_SPACE_SIZE + self.ppu.chr@.len() + VRAM_SIZE + PALETTE_SIZE + 6)] as usize
        &&& self.prg_map@[2] == d[(p + LOW_SPACE_SIZE + self.ppu.chr@.len() + VRAM_SIZE + PALETTE_SIZE + 7)] as usize
        &&& self.chr_lo == d[(p + LOW_SPACE_SIZE + self.ppu.chr@.len() + VRAM_SIZE + PALETTE_SIZE + 8)]
        &&& self.chr_hi == d[(p + LOW_SPACE_SIZE + self.ppu.chr@.len() + VRAM_SIZE + PALETTE_SIZE + 9)]
        &&& self.chr_lo_high_bit == d[(p + LOW_SPACE_SIZE + self.ppu.chr@.len() + VRAM_SIZE + PALETTE_SIZE + 10)]
        &&& self.chr_hi_high_bit == d[(p + LOW_SPACE_SIZE + self.ppu.chr@.len() + VRAM_SIZE + PALETTE_SIZE + 11)]
        &&& self.ppu.mirroring == mirror_from_code(d[(p + LOW_SPACE_SIZE + self.ppu.chr@.len() + VRAM_SIZE + PALETTE_SIZE + 12)])->0
        &&& self.controllers@[0] == controller_at(d, (p + LOW_SPACE_SIZE + self.ppu.chr@.len() + VRAM_SIZE + PALETTE_SIZE + 13))
        &&& self.controllers@[1] == controller_at(d, (p + LOW_SPACE_SIZE + self.ppu.chr@.len() + VRAM_SIZE + PALETTE_SIZE + 13) + CONTROLLER_STATE_LEN)
    }

    /// The two agree on every saved field.
    pub open spec fn same_state(&self, other: &Self) -> bool {
        &&& self.ram@ == other.ram@
        &&& self.ppu.chr@ == other.ppu.chr@
        &&& self.ppu.vram@ == other.ppu.vram@
        &&& self.ppu.palette@ == other.ppu.palette@
        &&& self.ppu.chr_is_ram == other.ppu.chr_is_ram
        &&& self.prg_select@ == other.prg_select@
        &&& self.prg_map@[0] == other.prg_map@[0]
        &&& self.prg_map@[1] == other.prg_map@[1]
        &&& self.prg_map@[2] == other.prg_map@[2]
        &&& self.chr_lo == other.chr_lo
        &&& self.chr_hi == other.chr_hi
        &&& self.chr_lo_high_bit == other.chr_lo_high_bit
        &&& self.chr_hi_high_bit == other.chr_hi_high_bit
        &&& self.ppu.mirroring == other.ppu.mirroring
        &&& self.controllers@ == other.controllers@
    }

    /// The two agree on every field that the state does not store.
    pub open spec fn keeps_unsaved(&self, other: &Self) -> bool {
        &&& self.prg_16k == other.prg_16k
        &&& self.chr_8k == other.chr_8k
    }

    /// The two come from cartridges of the same shape.
    pub open spec fn same_layout(&self, other: &Self) -> bool {
        &&& self.prg_16k@.len() == other.prg_16k@.len()
        &&& self.ppu.chr@.len() == other.ppu.chr@.len()
    }

    #[verifier::spinoff_prover]
    pub fn save_state(&self, w: &mut SavestateWriter)
        ensures
            final(w).buf@ == old(w).buf@ + self.state_bytes(),
    {
        let ghost b = w.buf@;
        let ghost s0 = self.ram@;
        let ghost s1 = s0 + self.ppu.chr@;
        let ghost s2 = s1 + self.ppu.vram@;
        let ghost s3 = s2 + self.ppu.palette@;
        let ghost s4 = s3 + enc_bool(self.ppu.chr_is_ram);
        let ghost s5 = s4 + enc_u8(mirror_code(self.ppu.mirroring));
        let ghost s6 = s5 + self.prg_select@;
        let ghost s7 = s6 + enc_u8(self.prg_map@[0] as u8);
        let ghost s8 = s7 + enc_u8(self.prg_map@[1] as u8);
        let ghost s9 = s8 + enc_u8(self.prg_map@[2] as u8);
        let ghost s10 = s9 + enc_u8(self.chr_lo);
        let ghost s11 = s10 + enc_u8(self.chr_hi);
        let ghost s12 = s11 + enc_u8(self.chr_lo_high_bit);
        let ghost s13 = s12 + enc_u8(self.chr_hi_high_bit);
        let ghost s14 = s13 + enc_u8(mirror_code(self.ppu.mirroring));
        let ghost s15 = s14 + controllers_bytes(self.controllers);
        w.write_bytes(self.ram.as_slice());
        w.write_bytes(self.ppu.chr.as_slice());
        proof {
            lemma_add_assoc(b, s0, self.ppu.chr@);
        }
        w.write_bytes(self.ppu.vram.as_slice());
        proof {
            lemma_add_assoc(b, s1, self.ppu.vram@);
        }
        w.write_bytes(self.ppu.palette.as_slice());
        proof {
            lemma_add_assoc(b, s2, self.ppu.palette@);
        }
        w.write_bool(self.ppu.chr_is_ram);
        proof {
            lemma_add_assoc(b, s3, enc_bool(self.ppu.chr_is_ram));
        }
        save_mirroring(w, self.ppu.mirroring);
        proof {
            lemma_add_assoc(b, s4, enc_u8(mirror_code(self.ppu.mirroring)));
        }
        w.write_bytes(self.prg_select.as_slice());
        proof {
            lemma_add_assoc(b, s5, self.prg_select@);
        }
        w.write_u8(self.prg_map[0] as u8);
        proof {
            lemma_add_assoc(b, s6, enc_u8(self.prg_map@[0] as u8));
        }
        w.write_u8(self.prg_map[1] as u8);
        proof {
            lemma_add_assoc(b, s7, enc_u8(self.prg_map@[1] as u8));
        }
        w.write_u8(self.prg_map[2] as u8);
        proof {
            lemma_add_assoc(b, s8, enc_u8(self.prg_map@[2] as u8));
        }
        w.write_u8(self.chr_lo);
        proof {
            lemma_add_assoc(b, s9, enc_u8(self.chr_lo));
        }
        w.write_u8(self.chr_hi);
        proof {
            lemma_add_assoc(b, s10, enc_u8(self.chr_hi));
        }
        w.write_u8(self.chr_lo_high_bit);
        proof {
            lemma_add_assoc(b, s11, enc_u8(self.chr_lo_high_bit));
        }
        w.write_u8(self.chr_hi_high_bit);
        proof {
            lemma_add_assoc(b, s12, enc_u8(self.chr_hi_high_bit));
        }
        save_mirroring(w, self.ppu.mirroring);
        proof {
            lemma_add_assoc(b, s13, enc_u8(mirror_code(self.ppu.mirroring)));
        }
        save_controllers(w, &self.controllers);
        proof {
            lemma_add_assoc(b, s14, controllers_bytes(self.controllers));
        }
    }

    /// Restores a state written by `save_state`. Nothing changes unless the
    /// whole state is there and holds values this cartridge can take.
    #[verifier::spinoff_prover]
    pub fn load_state(&mut self, r: &mut SavestateReader) -> (res: Result<(), StateError>)
        requires
            old(self).wf(),
            old(r).wf(),
        ensures
            final(r).wf(),
            final(r).data@ == old(r).data@,
            res == old(self).load_outcome(old(r).data@, old(r).pos as int),
            res is Err ==> *final(self) == *old(self) && final(r).pos == old(r).pos,
            res is Ok ==> final(self).wf() && final(self).loaded_from(old(r).data@, old(r).pos as int)
                && final(self).keeps_unsaved(&*old(self)) && final(self).same_layout(&*old(self))
                && final(r).pos == old(r).pos + old(self).state_len(),
    {
        let ghost d = r.data@;
        let ghost p = r.pos as int;
        let start = r.pos;
        let rem = r.remaining_len();
        if rem < self.ppu.chr.len() || rem - self.ppu.chr.len() < LOW_SPACE_SIZE + VRAM_SIZE + PALETTE_SIZE + 2 * CONTROLLER_STATE_LEN + 13 {
            return Err(StateError::UnexpectedEof);
        }
        let ram = r.take_bytes(LOW_SPACE_SIZE);
        let ppu_chr = r.take_bytes(self.ppu.chr.len());
        let ppu_vram = r.take_bytes(VRAM_SIZE);
        let ppu_palette = r.take_bytes(PALETTE_SIZE);
        let ppu_chr_is_ram = r.take_bool();
        let ppu_mirroring_saved_code = r.take_u8();
        let prg_select_bytes = r.take_bytes(3);
        let mut prg_select = self.prg_select;
        copy_into_array(&mut prg_select, &prg_select_bytes);
        let map0 = r.take_u8() as usize;
        let map1 = r.take_u8() as usize;
        let map2 = r.take_u8() as usize;
        let chr_lo = r.take_u8();
        let chr_hi = r.take_u8();
        let chr_lo_high_bit = r.take_u8();
        let chr_hi_high_bit = r.take_u8();
        let ppu_mirroring_code = r.take_u8();
        let controllers = take_controllers(r);
        if mirroring_from_code(ppu_mirroring_saved_code).is_none() {
            r.rewind(start);
            return Err(StateError::InvalidValue);
        }
        let ppu_mirroring = match mirroring_from_code(ppu_mirroring_code) {
            Some(m) => m,
            None => {
                r.rewind(start);
                return Err(StateError::InvalidValue);
            },
        };
        if (map0 >= 2 * self.prg_16k.len())
            || (map1 >= 2 * self.prg_16k.len())
            || (map2 >= 2 * self.prg_16k.len()) {
            r.rewind(start);
            return Err(StateError::InvalidValue);
        }
        self.ram = ram;
        self.ppu.chr = ppu_chr;
        self.ppu.vram = ppu_vram;
        self.ppu.palette = ppu_palette;
        self.ppu.chr_is_ram = ppu_chr_is_ram;
        self.prg_select = prg_select;
        self.chr_lo = chr_lo;
        self.chr_hi = chr_hi;
        self.chr_lo_high_bit = chr_lo_high_bit;
        self.chr_hi_high_bit = chr_hi_high_bit;
        self.ppu.mirroring = ppu_mirroring;
        self.controllers = controllers;
        self.prg_map = [map0, map1, map2];
        Ok(())
    }

    /// Saving a state and loading it into a cartridge of the same shape
    /// succeeds and restores every saved field.
    #[verifier::spinoff_prover]
    pub proof fn lemma_state_roundtrip(o: Self, m: Self, n: Self, d: Seq<u8>, p: int)
        requires
            o.wf(),
            m.wf(),
            m.fits(),
            o.same_layout(&m),
            n.same_layout(&m),
            stored_at(d, p, m.state_bytes()),
        ensures
            o.load_outcome(d, p) == Ok::<(), StateError>(()),
            n.loaded_from(d, p) ==> n.same_state(&m),
    {
        let s0 = m.ram@;
        let s1 = s0 + m.ppu.chr@;
        let s2 = s1 + m.ppu.vram@;
        let s3 = s2 + m.ppu.palette@;
        let s4 = s3 + enc_bool(m.ppu.chr_is_ram);
        let s5 = s4 + enc_u8(mirror_code(m.ppu.mirroring));
        let s6 = s5 + m.prg_select@;
        let s7 = s6 + enc_u8(m.prg_map@[0] as u8);
        let s8 = s7 + enc_u8(m.prg_map@[1] as u8);
        let s9 = s8 + enc_u8(m.prg_map@[2] as u8);
        let s10 = s9 + enc_u8(m.chr_lo);
        let s11 = s10 + enc_u8(m.chr_hi);
        let s12 = s11 + enc_u8(m.chr_lo_high_bit);
        let s13 = s12 + enc_u8(m.chr_hi_high_bit);
        let s14 = s13 + enc_u8(mirror_code(m.ppu.mirroring));
        let s15 = s14 + controllers_bytes(m.controllers);
        lemma_stored_split(d, p, s14, controllers_bytes(m.controllers));
        lemma_stored_split(d, p, s13, enc_u8(mirror_code(m.ppu.mirroring)));
        lemma_stored_split(d, p, s12, enc_u8(m.chr_hi_high_bit));
        lemma_stored_split(d, p, s11, enc_u8(m.chr_lo_high_bit));
        lemma_stored_split(d, p, s10, enc_u8(m.chr_hi));
        lemma_stored_split(d, p, s9, enc_u8(m.chr_lo));
        lemma_stored_split(d, p, s8, enc_u8(m.prg_map@[2] as u8));
        lemma_stored_split(d, p, s7, enc_u8(m.prg_map@[1] as u8));
        lemma_stored_split(d, p, s6, enc_u8(m.prg_map@[0] as u8));
        lemma_stored_split(d, p, s5, m.prg_select@);
        lemma_stored_split(d, p, s4, enc_u8(mirror_code(m.ppu.mirroring)));
        lemma_stored_split(d, p, s3, enc_bool(m.ppu.chr_is_ram));
        lemma_stored_split(d, p, s2, m.ppu.palette@);
        lemma_stored_split(d, p, s1, m.ppu.vram@);
        lemma_stored_split(d, p, s0, m.ppu.chr@);
        lemma_stored_bool(d, (p + LOW_SPACE_SIZE + m.ppu.chr@.len() + VRAM_SIZE + PALETTE_SIZE), m.ppu.chr_is_ram);
        lemma_stored_u8(d, (p + LOW_SPACE_SIZE + m.ppu.chr@.len() + VRAM_SIZE + PALETTE_SIZE + 1), mirror_code(m.ppu.mirroring));
        lemma_mirror_code_roundtrip(m.ppu.mirroring);
        lemma_stored_u8(d, (p + LOW_SPACE_SIZE + m.ppu.chr@.len() + VRAM_SIZE + PALETTE_SIZE + 5), m.prg_map@[0] as u8);
        lemma_stored_u8(d, (p + LOW_SPACE_SIZE + m.ppu.chr@.len() + VRAM_SIZE + PALETTE_SIZE + 6), m.prg_map@[1] as u8);
        lemma_stored_u8(d, (p + LOW_SPACE_SIZE + m.ppu.chr@.len() + VRAM_SIZE + PALETTE_SIZE + 7), m.prg_map@[2] as u8);
        lemma_stored_u8(d, (p + LOW_SPACE_SIZE + m.ppu.chr@.len() + VRAM_SIZE + PALETTE_SIZE + 8), m.chr_lo);
        lemma_stored_u8(d, (p + LOW_SPACE_SIZE + m.ppu.chr@.len() + VRAM_SIZE + PALETTE_SIZE + 9), m.chr_hi);
        lemma_stored_u8(d, (p + LOW_SPACE_SIZE + m.ppu.chr@.len() + VRAM_SIZE + PALETTE_SIZE + 10), m.chr_lo_high_bit);
        lemma_stored_u8(d, (p + LOW_SPACE_SIZE + m.ppu.chr@.len() + VRAM_SIZE + PALETTE_SIZE + 11), m.chr_hi_high_bit);
        lemma_stored_u8(d, (p + LOW_SPACE_SIZE + m.ppu.chr@.len() + VRAM_SIZE + PALETTE_SIZE + 12), mirror_code(m.ppu.mirroring));
        lemma_mirror_code_roundtrip(m.ppu.mirroring);
        lemma_stored_controllers(d, (p + LOW_SPACE_SIZE + m.ppu.chr@.len() + VRAM_SIZE + PALETTE_SIZE + 13), m.controllers);
        if n.loaded_from(d, p) {
            assert(n.controllers@ =~= m.controllers@);
        }
    }
}

} // verus!
