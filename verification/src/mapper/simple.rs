//! Discrete-logic boards with one latch register (mappers 78, 87, 140, 152,
//! 180, 184, 185): PRG in 16KB or 32KB banks, CHR ROM in 8KB or 4KB banks.

use vstd::prelude::*;
use crate::bus::{NametableMirror, LOW_SPACE_SIZE, VRAM_SIZE, PALETTE_SIZE, RESET_TARGET_ADDR, spec_mirror_addr, mirror_addr, spec_addr_to_page, addr_to_page, spec_mirroring_from_flags, mirroring_from_flags, low_after_write, low_write, word, make_word};
use crate::ppu_bus::{PpuBus, PpuView, zeroed};
use crate::controller::Controller;
use crate::mapper::common::new_controllers;

use crate::savestate::{SavestateWriter, SavestateReader, StateError, enc_u8, enc_bool, stored_at, lemma_add_assoc, lemma_stored_split, lemma_stored_u8, lemma_stored_bool};
use crate::controller::{controllers_bytes, controller_at, save_controllers, take_controllers, lemma_stored_controllers, CONTROLLER_STATE_LEN};
use crate::ppu_bus::{bank_matches, mirror_code, mirror_from_code, mirroring_from_code, save_mirroring, lemma_mirror_code_roundtrip};

verus! {

pub const PRG_16K: usize = 16 * 1024;
pub const PRG_32K: usize = 32 * 1024;
pub const CHR_8K: usize = 8 * 1024;
pub const CHR_4K: usize = 4 * 1024;

#[derive(Clone, Copy, Debug, PartialEq, Eq, Structural)]
pub enum MapperType {
    M78,
    M87,
    M152,
    M184,
    M185,
    M140,
    M180,
}

pub struct SimpleMapper {
    pub ram: Vec<u8>,
    pub mapper_type: MapperType,
    pub prg_banks_16k: Vec<[u8; PRG_16K]>,
    pub chr_banks_8k: Vec<[u8; CHR_8K]>,
    /// 16KB banks shown at $8000 and $C000.
    pub prg_lo: usize,
    pub prg_hi: usize,
    pub selected_prg: usize,
    pub selected_chr: usize,
    pub selected_chr_hi: usize,
    pub chr_enabled: bool,
    pub submapper: u8,
    pub ppu: PpuBus,
    pub controllers: [Controller; 2],
}

/// The 4KB CHR page `page` of a set of 8KB banks.
pub open spec fn chr_page(chr: Seq<[u8; 8192]>, page: int) -> Seq<u8> {
    chr[page / 2]@.subrange((page % 2) * 0x1000, (page % 2) * 0x1000 + 0x1000)
}

/// Whether mapper 185 shows its CHR after a latch write of `v`.
pub open spec fn m185_chr_enabled(submapper: u8, v: u8) -> bool {
    if submapper == 4 {
        v & 0x03 == 0x00
    } else if submapper == 5 {
        v & 0x03 == 0x01
    } else if submapper == 6 {
        v & 0x03 == 0x02
    } else if submapper == 7 {
        v & 0x03 == 0x03
    } else {
        v & 0x33 != 0x00
    }
}

/// Pages that hold RAM on each board.
pub open spec fn simple_ram_page(t: MapperType, page: u8) -> bool {
    match t {
        MapperType::M87 | MapperType::M184 | MapperType::M140 => page == 0x00 || page == 0x10,
        _ => page == 0x00 || page == 0x10 || page == 0x60,
    }
}

/// The iNES mapper number of each board.
pub open spec fn spec_simple_id(t: MapperType) -> u8 {
    match t {
        MapperType::M78 => 78,
        MapperType::M87 => 87,
        MapperType::M140 => 140,
        MapperType::M152 => 152,
        MapperType::M180 => 180,
        MapperType::M184 => 184,
        MapperType::M185 => 185,
    }
}

impl SimpleMapper {
    pub open spec fn n16(&self) -> int {
        self.prg_banks_16k@.len() as int
    }

    /// Number of 32KB banks (an odd last 16KB bank is doubled).
    /// After a switch to 8KB CHR bank `bank`: the bank shown, wrapped to
    /// the number of banks, is the one selected; a board without CHR banks
    /// keeps what it shows.
    pub open spec fn chr_switched(&self, o: &Self, bank: int) -> bool {
        if o.chr_banks_8k@.len() > 0 {
            &&& self.selected_chr as int == bank % o.chr_banks_8k@.len() as int
            &&& self.ppu.chr@ == o.chr_banks_8k@[self.selected_chr as int]@
        } else {
            self.chr_kept(o)
        }
    }

    /// The CHR shown and its selection are those of `o`.
    pub open spec fn chr_kept(&self, o: &Self) -> bool {
        self.selected_chr == o.selected_chr && self.ppu.chr == o.ppu.chr
    }

    pub open spec fn n32(&self) -> int {
        (self.n16() + 1) / 2
    }

    pub open spec fn wf(&self) -> bool {
        &&& self.ram@.len() == LOW_SPACE_SIZE
        &&& self.prg_banks_16k@.len() > 0
        &&& self.prg_lo < self.prg_banks_16k@.len()
        &&& self.prg_hi < self.prg_banks_16k@.len()
        &&& 2 * self.chr_banks_8k@.len() <= usize::MAX
        &&& self.chr_banks_8k@.len() > 0 && self.mapper_type != MapperType::M184 ==> self.selected_chr
            < self.chr_banks_8k@.len() && self.ppu.chr@ == self.chr_banks_8k@[self.selected_chr as int]@
        &&& self.chr_banks_8k@.len() > 0 ==> !self.ppu.chr_is_ram
        &&& self.chr_banks_8k@.len() == 0 ==> self.selected_chr == 0
        &&& self.ppu.wf()
    }

    pub open spec fn spec_cpu_read(&self, addr: u16) -> u8 {
        let a = spec_mirror_addr(addr);
        if a < 0x8000 {
            self.ram@[a as int]
        } else if a < 0xC000 {
            self.prg_banks_16k@[self.prg_lo as int][a - 0x8000]
        } else {
            self.prg_banks_16k@[self.prg_hi as int][a - 0xC000]
        }
    }

    pub open spec fn spec_ppu_read(&self, addr: u16) -> u8 {
        if !self.chr_enabled && addr < 0x2000 {
            0xFF
        } else {
            self.ppu@.read(addr)
        }
    }

    /// Mappers 78, 152 and 180 start with the first and last 16KB banks; the
    /// others with the first 32KB. CHR RAM is used when there is no CHR ROM.
    fn new_inner(t: MapperType, prg_banks_16k: Vec<[u8; PRG_16K]>, chr_banks_8k: Vec<[u8; CHR_8K]>, mirroring: NametableMirror) -> (m: SimpleMapper)
        requires
            prg_banks_16k@.len() > 0,
            2 * chr_banks_8k@.len() <= usize::MAX,
        ensures
            m.wf(),
            m.mapper_type == t,
            m.prg_banks_16k@ == prg_banks_16k@,
            m.chr_banks_8k@ == chr_banks_8k@,
            m.prg_lo == 0,
            m.prg_hi as int == (if t == MapperType::M78 || t == MapperType::M152 || t == MapperType::M180 {
                prg_banks_16k@.len() - 1
            } else if prg_banks_16k@.len() > 1 {
                1
            } else {
                0
            }),
            m.selected_prg == 0 && m.selected_chr == 0 && m.selected_chr_hi == 1,
            m.chr_enabled == (t != MapperType::M185),
            m.submapper == 0,
            m.ram@ == Seq::new(LOW_SPACE_SIZE as nat, |i: int| 0u8),
            m.ppu.mirroring == mirroring,
            chr_banks_8k@.len() == 0 ==> m.ppu@ == (PpuView {
                chr: Seq::new(CHR_8K as nat, |i: int| 0u8),
                chr_is_ram: true,
                vram: Seq::new(VRAM_SIZE as nat, |i: int| 0u8),
                palette: Seq::new(PALETTE_SIZE as nat, |i: int| 0u8),
                mirroring: mirroring,
            }),
            chr_banks_8k@.len() > 0 ==> m.ppu.chr@ == chr_banks_8k@[0]@,
    {
        let n = prg_banks_16k.len();
        let hi = if t == MapperType::M78 || t == MapperType::M152 || t == MapperType::M180 {
            n - 1
        } else if n > 1 {
            1
        } else {
            0
        };
        let ppu = if chr_banks_8k.len() == 0 {
            PpuBus::new_ram(CHR_8K, mirroring)
        } else {
            PpuBus::new_rom(&chr_banks_8k[0], mirroring)
        };
        SimpleMapper {
            ram: zeroed(LOW_SPACE_SIZE),
            mapper_type: t,
            prg_banks_16k,
            chr_banks_8k,
            prg_lo: 0,
            prg_hi: hi,
            selected_prg: 0,
            selected_chr: 0,
            selected_chr_hi: 1,
            chr_enabled: t != MapperType::M185,
            submapper: 0,
            ppu,
            controllers: new_controllers(),
        }
    }

    /// What `mapper78` builds from its arguments.
    pub open spec fn built_by_mapper78(flags: u8, prg: Vec<[u8; PRG_16K]>, chr: Vec<[u8; CHR_8K]>, submapper: u8, m: SimpleMapper) -> bool {
        &&& (m.wf())
        &&& (m.mapper_type == MapperType::M78)
        &&& (m.submapper == submapper)
        &&& (m.prg_lo == 0)
        &&& (m.prg_hi == prg@.len() - 1)
        &&& (m.ppu.mirroring == (if submapper == 3 { spec_mirroring_from_flags(flags) } else { NametableMirror::Lower }))
    }

    /// Mapper 78: submapper 3 (Holy Diver) follows the header's mirroring,
    /// the others start on the lower single screen.
    pub fn mapper78(flags: u8, prg: Vec<[u8; PRG_16K]>, chr: Vec<[u8; CHR_8K]>, submapper: u8) -> (m: SimpleMapper)
        requires
            prg@.len() > 0,
            2 * chr@.len() <= usize::MAX,
        ensures
            m.wf(),
            m.mapper_type == MapperType::M78,
            m.submapper == submapper,
            m.prg_lo == 0,
            m.prg_hi == prg@.len() - 1,
            m.ppu.mirroring == (if submapper == 3 { spec_mirroring_from_flags(flags) } else { NametableMirror::Lower }),
            Self::built_by_mapper78(flags, prg, chr, submapper, m),
    {
        let mirroring = if submapper == 3 {
            mirroring_from_flags(flags)
        } else {
            NametableMirror::Lower
        };
        let mut m = Self::new_inner(MapperType::M78, prg, chr, mirroring);
        m.submapper = submapper;
        m
    }

    /// What `mapper87` builds from its arguments.
    pub open spec fn built_by_mapper87(flags: u8, prg: Vec<[u8; PRG_16K]>, chr: Vec<[u8; CHR_8K]>, m: SimpleMapper) -> bool {
        &&& (m.wf())
        &&& (m.mapper_type == MapperType::M87)
        &&& (m.prg_lo == 0)
        &&& (m.ppu.mirroring == spec_mirroring_from_flags(flags))
        &&& (chr@.len() > 0 ==> m.ppu.chr@ == chr@[0]@)
    }

    pub fn mapper87(flags: u8, prg: Vec<[u8; PRG_16K]>, chr: Vec<[u8; CHR_8K]>) -> (m: SimpleMapper)
        requires
            prg@.len() > 0,
            2 * chr@.len() <= usize::MAX,
        ensures
            m.wf(),
            m.mapper_type == MapperType::M87,
            m.prg_lo == 0,
            m.ppu.mirroring == spec_mirroring_from_flags(flags),
            chr@.len() > 0 ==> m.ppu.chr@ == chr@[0]@,
            Self::built_by_mapper87(flags, prg, chr, m),
    {
        Self::new_inner(MapperType::M87, prg, chr, mirroring_from_flags(flags))
    }

    /// What `mapper185` builds from its arguments.
    pub open spec fn built_by_mapper185(flags: u8, prg: Vec<[u8; PRG_16K]>, chr: Vec<[u8; CHR_8K]>, submapper: u8, m: SimpleMapper) -> bool {
        &&& (m.wf())
        &&& (m.mapper_type == MapperType::M185)
        &&& (m.submapper == submapper)
        &&& (!m.chr_enabled)
        &&& (m.ppu.mirroring == spec_mirroring_from_flags(flags))
        &&& (chr@.len() > 0 ==> m.ppu.chr@ == chr@[0]@)
    }

    /// Mapper 185 starts with its CHR hidden.
    pub fn mapper185(flags: u8, prg: Vec<[u8; PRG_16K]>, chr: Vec<[u8; CHR_8K]>, submapper: u8) -> (m: SimpleMapper)
        requires
            prg@.len() > 0,
            2 * chr@.len() <= usize::MAX,
        ensures
            m.wf(),
            m.mapper_type == MapperType::M185,
            m.submapper == submapper,
            !m.chr_enabled,
            m.ppu.mirroring == spec_mirroring_from_flags(flags),
            chr@.len() > 0 ==> m.ppu.chr@ == chr@[0]@,
            Self::built_by_mapper185(flags, prg, chr, submapper, m),
    {
        let mut m = Self::new_inner(MapperType::M185, prg, chr, mirroring_from_flags(flags));
        m.submapper = submapper;
        m
    }

    /// What `mapper152` builds from its arguments.
    pub open spec fn built_by_mapper152(prg: Vec<[u8; PRG_16K]>, chr: Vec<[u8; CHR_8K]>, m: SimpleMapper) -> bool {
        &&& (m.wf())
        &&& (m.mapper_type == MapperType::M152)
        &&& (m.prg_lo == 0)
        &&& (m.prg_hi == prg@.len() - 1)
        &&& (m.ppu.mirroring == NametableMirror::Lower)
        &&& (chr@.len() > 0 ==> m.ppu.chr@ == chr@[0]@)
    }

    pub fn mapper152(prg: Vec<[u8; PRG_16K]>, chr: Vec<[u8; CHR_8K]>) -> (m: SimpleMapper)
        requires
            prg@.len() > 0,
            2 * chr@.len() <= usize::MAX,
        ensures
            m.wf(),
            m.mapper_type == MapperType::M152,
            m.prg_lo == 0,
            m.prg_hi == prg@.len() - 1,
            m.ppu.mirroring == NametableMirror::Lower,
            chr@.len() > 0 ==> m.ppu.chr@ == chr@[0]@,
            Self::built_by_mapper152(prg, chr, m),
    {
        Self::new_inner(MapperType::M152, prg, chr, NametableMirror::Lower)
    }

    /// What `mapper184` builds from its arguments.
    pub open spec fn built_by_mapper184(flags: u8, prg: Vec<[u8; PRG_16K]>, chr: Vec<[u8; CHR_8K]>, m: SimpleMapper) -> bool {
        &&& (m.wf())
        &&& (m.mapper_type == MapperType::M184)
        &&& (m.prg_lo == 0)
        &&& (m.ppu.mirroring == spec_mirroring_from_flags(flags))
        &&& (chr@.len() > 0 ==> m.ppu.chr@ == chr@[0]@)
    }

    pub fn mapper184(flags: u8, prg: Vec<[u8; PRG_16K]>, chr: Vec<[u8; CHR_8K]>) -> (m: SimpleMapper)
        requires
            prg@.len() > 0,
            2 * chr@.len() <= usize::MAX,
        ensures
            m.wf(),
            m.mapper_type == MapperType::M184,
            m.prg_lo == 0,
            m.ppu.mirroring == spec_mirroring_from_flags(flags),
            chr@.len() > 0 ==> m.ppu.chr@ == chr@[0]@,
            Self::built_by_mapper184(flags, prg, chr, m),
    {
        Self::new_inner(MapperType::M184, prg, chr, mirroring_from_flags(flags))
    }

    /// What `mapper140` builds from its arguments.
    pub open spec fn built_by_mapper140(flags: u8, prg: Vec<[u8; PRG_16K]>, chr: Vec<[u8; CHR_8K]>, m: SimpleMapper) -> bool {
        &&& (m.wf())
        &&& (m.mapper_type == MapperType::M140)
        &&& (m.prg_lo == 0)
        &&& (m.ppu.mirroring == spec_mirroring_from_flags(flags))
        &&& (chr@.len() > 0 ==> m.ppu.chr@ == chr@[0]@)
    }

    pub fn mapper140(flags: u8, prg: Vec<[u8; PRG_16K]>, chr: Vec<[u8; CHR_8K]>) -> (m: SimpleMapper)
        requires
            prg@.len() > 0,
            2 * chr@.len() <= usize::MAX,
        ensures
            m.wf(),
            m.mapper_type == MapperType::M140,
            m.prg_lo == 0,
            m.ppu.mirroring == spec_mirroring_from_flags(flags),
            chr@.len() > 0 ==> m.ppu.chr@ == chr@[0]@,
            Self::built_by_mapper140(flags, prg, chr, m),
    {
        Self::new_inner(MapperType::M140, prg, chr, mirroring_from_flags(flags))
    }

    /// What `mapper180` builds from its arguments.
    pub open spec fn built_by_mapper180(flags: u8, prg: Vec<[u8; PRG_16K]>, chr: Vec<[u8; CHR_8K]>, m: SimpleMapper) -> bool {
        &&& (m.wf())
        &&& (m.mapper_type == MapperType::M180)
        &&& (m.prg_lo == 0)
        &&& (m.prg_hi == prg@.len() - 1)
        &&& (m.ppu.mirroring == spec_mirroring_from_flags(flags))
    }

    pub fn mapper180(flags: u8, prg: Vec<[u8; PRG_16K]>, chr: Vec<[u8; CHR_8K]>) -> (m: SimpleMapper)
        requires
            prg@.len() > 0,
            2 * chr@.len() <= usize::MAX,
        ensures
            m.wf(),
            m.mapper_type == MapperType::M180,
            m.prg_lo == 0,
            m.prg_hi == prg@.len() - 1,
            m.ppu.mirroring == spec_mirroring_from_flags(flags),
            Self::built_by_mapper180(flags, prg, chr, m),
    {
        Self::new_inner(MapperType::M180, prg, chr, mirroring_from_flags(flags))
    }

    pub fn cpu_read(&self, addr: u16) -> (r: u8)
        requires
            self.wf(),
        ensures
            r == self.spec_cpu_read(addr),
    {
        let a = mirror_addr(addr);
        if a < 0x8000 {
            self.ram[a as usize]
        } else if a < 0xC000 {
            self.prg_banks_16k[self.prg_lo][(a - 0x8000) as usize]
        } else {
            self.prg_banks_16k[self.prg_hi][(a - 0xC000) as usize]
        }
    }

    pub fn cpu_peek(&self, addr: u16) -> (r: u8)
        requires
            self.wf(),
        ensures
            r == self.spec_cpu_read(addr),
    {
        self.cpu_read(addr)
    }

    /// Shows 8KB CHR bank `bank` (wrapped to the number of banks).
    fn switch_chr_8k(&mut self, bank: usize)
        requires
            old(self).wf(),
            old(self).mapper_type != MapperType::M184,
        ensures
            final(self).wf(),
            old(self).chr_banks_8k@.len() > 0 ==> final(self).selected_chr as int == bank as int
                % old(self).chr_banks_8k@.len() as int,
            old(self).chr_banks_8k@.len() > 0 ==> final(self).ppu.chr@ == old(self).chr_banks_8k@[final(self).selected_chr as int]@,
            old(self).chr_banks_8k@.len() == 0 ==> final(self).selected_chr == old(self).selected_chr
                && final(self).ppu.chr == old(self).ppu.chr,
            final(self).ppu.vram == old(self).ppu.vram,
            final(self).ppu.palette == old(self).ppu.palette,
            final(self).ppu.mirroring == old(self).ppu.mirroring,
            final(self).ppu.chr_is_ram == old(self).ppu.chr_is_ram,
            final(self).ram == old(self).ram,
            final(self).mapper_type == old(self).mapper_type,
            final(self).prg_banks_16k == old(self).prg_banks_16k,
            final(self).chr_banks_8k == old(self).chr_banks_8k,
            final(self).prg_lo == old(self).prg_lo,
            final(self).prg_hi == old(self).prg_hi,
            final(self).selected_prg == old(self).selected_prg,
            final(self).selected_chr_hi == old(self).selected_chr_hi,
            final(self).chr_enabled == old(self).chr_enabled,
            final(self).submapper == old(self).submapper,
            final(self).controllers == old(self).controllers,
    {
        let n = if self.chr_banks_8k.len() > 1 { self.chr_banks_8k.len() } else { 1 };
        let index = bank % n;
        if index != self.selected_chr && self.chr_banks_8k.len() > 0 {
            self.selected_chr = index;
            self.ppu.switch_chr_bank(&self.chr_banks_8k, index);
        }
    }

    /// Builds the CHR window from two 4KB pages (mapper 184).
    fn rebuild_chr_from_4k(&mut self, lo: usize, hi: usize)
        requires
            old(self).wf(),
            old(self).mapper_type == MapperType::M184,
        ensures
            final(self).wf(),
            old(self).chr_banks_8k@.len() > 0 ==> final(self).ppu.chr@ == chr_page(
                old(self).chr_banks_8k@,
                lo as int % (2 * old(self).chr_banks_8k@.len() as int),
            ) + chr_page(old(self).chr_banks_8k@, hi as int % (2 * old(self).chr_banks_8k@.len() as int))
                && final(self).selected_chr == lo && final(self).selected_chr_hi == hi,
            old(self).chr_banks_8k@.len() == 0 ==> final(self).ppu.chr == old(self).ppu.chr
                && final(self).selected_chr == old(self).selected_chr && final(self).selected_chr_hi == old(self).selected_chr_hi,
            final(self).ppu.vram == old(self).ppu.vram,
            final(self).ppu.palette == old(self).ppu.palette,
            final(self).ppu.mirroring == old(self).ppu.mirroring,
            final(self).ppu.chr_is_ram == old(self).ppu.chr_is_ram,
            final(self).ram == old(self).ram,
            final(self).mapper_type == old(self).mapper_type,
            final(self).prg_banks_16k == old(self).prg_banks_16k,
            final(self).chr_banks_8k == old(self).chr_banks_8k,
            final(self).prg_lo == old(self).prg_lo,
            final(self).prg_hi == old(self).prg_hi,
            final(self).selected_prg == old(self).selected_prg,
            final(self).chr_enabled == old(self).chr_enabled,
            final(self).submapper == old(self).submapper,
            final(self).controllers == old(self).controllers,
    {
        if self.chr_banks_8k.len() == 0 {
            return;
        }
        self.selected_chr = lo;
        self.selected_chr_hi = hi;
        let n = self.chr_banks_8k.len() * 2;
        let l = lo % n;
        let h = hi % n;
        let window = crate::ppu_bus::join_halves(
            &self.chr_banks_8k[l / 2],
            (l % 2) * 0x1000,
            &self.chr_banks_8k[h / 2],
            (h % 2) * 0x1000,
        );
        self.ppu.set_chr(window);
    }

    /// The latch write of each board; `v` is the value after any bus conflict.
    pub fn cpu_write(&mut self, addr: u16, value: u8)
        requires
            old(self).wf(),
        ensures
            final(self).wf(),
            final(self).mapper_type == old(self).mapper_type,
            final(self).prg_banks_16k == old(self).prg_banks_16k,
            final(self).chr_banks_8k == old(self).chr_banks_8k,
            final(self).submapper == old(self).submapper,
            final(self).controllers == old(self).controllers,
            final(self).ppu.vram == old(self).ppu.vram,
            final(self).ppu.palette == old(self).ppu.palette,
            final(self).ppu.chr_is_ram == old(self).ppu.chr_is_ram,
            ({
                let a = spec_mirror_addr(addr);
                let page = spec_addr_to_page(a);
                let t = old(self).mapper_type;
                let latch_in_rom = t == MapperType::M78 || t == MapperType::M185
                    || t == MapperType::M152 || t == MapperType::M180;
                let latch = if latch_in_rom { a >= 0x8000 } else { page == 0x60 || page == 0x70 };
                let v = if latch_in_rom { value & old(self).spec_cpu_read(addr) } else { value };
                let n = old(self).n16();
                let nc = old(self).chr_banks_8k@.len() as int;
                let k = (((v >> 4u8) & 0x03) as int) % old(self).n32();
                &&& a < 0x8000 && simple_ram_page(t, page) ==> final(self).ram@ == old(self).ram@.update(a as int, value)
                &&& !(a < 0x8000 && simple_ram_page(t, page)) ==> final(self).ram == old(self).ram
                &&& t != MapperType::M184 ==> final(self).selected_chr_hi == old(self).selected_chr_hi
                &&& !latch ==> final(self).prg_lo == old(self).prg_lo && final(self).prg_hi == old(self).prg_hi
                    && final(self).selected_prg == old(self).selected_prg
                    && final(self).chr_enabled == old(self).chr_enabled
                    && final(self).ppu.mirroring == old(self).ppu.mirroring
                    && final(self).chr_kept(&*old(self))
                    && final(self).selected_chr_hi == old(self).selected_chr_hi
                &&& latch && t == MapperType::M78 ==> final(self).prg_lo as int == (v & 0x07) as int % n
                    && final(self).selected_prg == final(self).prg_lo
                    && final(self).prg_hi == old(self).prg_hi
                    && final(self).chr_enabled == old(self).chr_enabled
                    && final(self).ppu.mirroring == (if old(self).submapper == 3 {
                        if v & 0x08 != 0 { NametableMirror::Horizontal } else { NametableMirror::Vertical }
                    } else {
                        if v & 0x08 != 0 { NametableMirror::Higher } else { NametableMirror::Lower }
                    })
                    && final(self).chr_switched(&*old(self), ((v >> 4u8) & 0x0F) as int)
                &&& latch && t == MapperType::M87 ==> final(self).prg_lo == old(self).prg_lo
                    && final(self).prg_hi == old(self).prg_hi
                    && final(self).selected_prg == old(self).selected_prg
                    && final(self).chr_enabled == old(self).chr_enabled
                    && final(self).ppu.mirroring == old(self).ppu.mirroring
                    && final(self).chr_switched(&*old(self), (((v & 1) << 1u8) | ((v >> 1u8) & 1)) as int)
                &&& latch && t == MapperType::M185 ==> final(self).chr_enabled == m185_chr_enabled(old(self).submapper, v)
                    && final(self).prg_lo == old(self).prg_lo && final(self).prg_hi == old(self).prg_hi
                    && final(self).selected_prg == old(self).selected_prg
                    && final(self).ppu.mirroring == old(self).ppu.mirroring
                    && final(self).chr_kept(&*old(self))
                &&& latch && t == MapperType::M152 ==> final(self).prg_lo as int == ((v >> 4u8) & 0x07) as int % n
                    && final(self).selected_prg == final(self).prg_lo
                    && final(self).prg_hi == old(self).prg_hi
                    && final(self).chr_enabled == old(self).chr_enabled
                    && final(self).ppu.mirroring == (if v & 0x80 != 0 { NametableMirror::Higher } else { NametableMirror::Lower })
                    && final(self).chr_switched(&*old(self), (v & 0x0F) as int)
                &&& latch && t == MapperType::M184 ==> final(self).prg_lo == old(self).prg_lo
                    && final(self).prg_hi == old(self).prg_hi
                    && final(self).selected_prg == old(self).selected_prg
                    && final(self).chr_enabled == old(self).chr_enabled
                    && final(self).ppu.mirroring == old(self).ppu.mirroring
                    && (nc > 0 ==> final(self).ppu.chr@ == chr_page(old(self).chr_banks_8k@, (v & 0x07) as int % (2 * nc))
                        + chr_page(old(self).chr_banks_8k@, (4 + ((v >> 4u8) & 0x07)) as int % (2 * nc))
                        && final(self).selected_chr as int == (v & 0x07) as int
                        && final(self).selected_chr_hi as int == 4 + ((v >> 4u8) & 0x07) as int)
                    && (nc == 0 ==> final(self).chr_kept(&*old(self))
                        && final(self).selected_chr_hi == old(self).selected_chr_hi)
                &&& latch && t == MapperType::M140 ==> final(self).prg_lo as int == 2 * k
                    && final(self).prg_hi as int == (if 2 * k + 1 < n { 2 * k + 1 } else { 2 * k })
                    && final(self).selected_prg as int == k
                    && final(self).chr_enabled == old(self).chr_enabled
                    && final(self).ppu.mirroring == old(self).ppu.mirroring
                    && final(self).chr_switched(&*old(self), (v & 0x0F) as int)
                &&& latch && t == MapperType::M180 ==> final(self).prg_hi as int == (v & 0x07) as int % n
                    && final(self).selected_prg == final(self).prg_hi
                    && final(self).prg_lo == old(self).prg_lo
                    && final(self).chr_enabled == old(self).chr_enabled
                    && final(self).ppu.mirroring == old(self).ppu.mirroring
                    && final(self).chr_kept(&*old(self))
            }),
    {
        let a = mirror_addr(addr);
        let page = addr_to_page(a);
        let t = self.mapper_type;
        let ram_page = match t {
            MapperType::M87 | MapperType::M184 | MapperType::M140 => page == 0x00 || page == 0x10,
            _ => page == 0x00 || page == 0x10 || page == 0x60,
        };
        if a < 0x8000 && ram_page {
            self.ram.set(a as usize, value);
            return;
        }
        match t {
            MapperType::M78 => {
                if a >= 0x8000 {
                    let v = value & self.cpu_read(a);
                    if self.submapper == 3 {
                        self.ppu.mirroring = if v & 0x08 != 0 { NametableMirror::Horizontal } else { NametableMirror::Vertical };
                    } else {
                        self.ppu.mirroring = if v & 0x08 != 0 { NametableMirror::Higher } else { NametableMirror::Lower };
                    }
                    let index = ((v & 0x07) as usize) % self.prg_banks_16k.len();
                    self.selected_prg = index;
                    self.prg_lo = index;
                    self.switch_chr_8k(((v >> 4) & 0x0F) as usize);
                }
            },
            MapperType::M87 => {
                if page == 0x60 || page == 0x70 {
                    let bank = ((value & 1) << 1) | ((value >> 1) & 1);
                    self.switch_chr_8k(bank as usize);
                }
            },
            MapperType::M185 => {
                if a >= 0x8000 {
                    let v = value & self.cpu_read(a);
                    self.chr_enabled = if self.submapper == 4 {
                        (v & 0x03) == 0x00
                    } else if self.submapper == 5 {
                        (v & 0x03) == 0x01
                    } else if self.submapper == 6 {
                        (v & 0x03) == 0x02
                    } else if self.submapper == 7 {
                        (v & 0x03) == 0x03
                    } else {
                        (v & 0x33) != 0x00
                    };
                }
            },
            MapperType::M152 => {
                if a >= 0x8000 {
                    let v = value & self.cpu_read(a);
                    self.ppu.mirroring = if v & 0x80 != 0 { NametableMirror::Higher } else { NametableMirror::Lower };
                    if self.chr_banks_8k.len() > 0 {
                        self.switch_chr_8k((v & 0x0F) as usize);
                    }
                    let index = (((v >> 4) & 0x07) as usize) % self.prg_banks_16k.len();
                    self.selected_prg = index;
                    self.prg_lo = index;
                }
            },
            MapperType::M184 => {
                if page == 0x60 || page == 0x70 {
                    let lo = (value & 0x07) as usize;
                    let hi = 4 + ((value >> 4) & 0x07) as usize;
                    self.rebuild_chr_from_4k(lo, hi);
                }
            },
            MapperType::M140 => {
                if page == 0x60 || page == 0x70 {
                    let n32 = self.prg_banks_16k.len() / 2 + self.prg_banks_16k.len() % 2;
                    let index = (((value >> 4) & 0x03) as usize) % n32;
                    self.selected_prg = index;
                    self.prg_lo = 2 * index;
                    self.prg_hi = if 2 * index + 1 < self.prg_banks_16k.len() { 2 * index + 1 } else { 2 * index };
                    if self.chr_banks_8k.len() > 0 {
                        self.switch_chr_8k((value & 0x0F) as usize);
                    }
                }
            },
            MapperType::M180 => {
                if a >= 0x8000 {
                    let v = value & self.cpu_read(a);
                    let index = ((v & 0x07) as usize) % self.prg_banks_16k.len();
                    self.selected_prg = index;
                    self.prg_hi = index;
                }
            },
        }
    }

    /// Mapper 185 hides its CHR by driving $FF while disabled.
    pub fn ppu_read(&self, addr: u16) -> (r: u8)
        requires
            self.wf(),
        ensures
            r == self.spec_ppu_read(addr),
    {
        if !self.chr_enabled && addr < 0x2000 {
            return 0xFF;
        }
        self.ppu.read(addr)
    }

    pub fn ppu_write(&mut self, addr: u16, value: u8)
        requires
            old(self).wf(),
        ensures
            final(self).wf(),
            final(self).ppu@ == old(self).ppu@.write(addr, value),
            final(self).ram == old(self).ram,
            final(self).prg_lo == old(self).prg_lo,
            final(self).prg_hi == old(self).prg_hi,
            final(self).chr_enabled == old(self).chr_enabled,
    {
        self.ppu.write(addr, value);
    }

    pub fn code_start(&self) -> (r: u16)
        requires
            self.wf(),
        ensures
            r == word(self.spec_cpu_read(RESET_TARGET_ADDR), self.spec_cpu_read(0xFFFD)),
    {
        make_word(self.cpu_read(RESET_TARGET_ADDR), self.cpu_read(RESET_TARGET_ADDR + 1))
    }

    pub fn poll_irq(&self) -> (r: bool)
        ensures
            !r,
    {
        false
    }

    pub fn mapper_id(&self) -> (r: u8)
        ensures
            r == spec_simple_id(self.mapper_type),
    {
        match self.mapper_type {
            MapperType::M78 => 78,
            MapperType::M87 => 87,
            MapperType::M140 => 140,
            MapperType::M152 => 152,
            MapperType::M180 => 180,
            MapperType::M184 => 184,
            MapperType::M185 => 185,
        }
    }
}

impl SimpleMapper {
    /// The bytes `save_state` appends.
    pub open spec fn state_bytes(&self) -> Seq<u8> {
        self.ram@
            + self.ppu.chr@
            + self.ppu.vram@
            + self.ppu.palette@
            + enc_bool(self.ppu.chr_is_ram)
            + enc_u8(mirror_code(self.ppu.mirroring))
            + enc_u8(self.selected_prg as u8)
            + enc_u8(self.prg_lo as u8)
            + enc_u8(self.prg_hi as u8)
            + enc_u8(self.selected_chr as u8)
            + enc_u8(self.selected_chr_hi as u8)
            + enc_bool(self.chr_enabled)
            + enc_u8(mirror_code(self.ppu.mirroring))
            + controllers_bytes(self.controllers)
    }

    /// Length of the saved state.
    pub open spec fn state_len(&self) -> nat {
        (LOW_SPACE_SIZE + self.ppu.chr@.len() + VRAM_SIZE + PALETTE_SIZE + 2 * CONTROLLER_STATE_LEN + 9) as nat
    }

    /// Every register that the state stores in fewer bits than it is held in
    /// fits in those bits.
    pub open spec fn fits(&self) -> bool {
        &&& self.selected_prg < 256
        &&& self.prg_lo < 256
        &&& self.prg_hi < 256
        &&& self.selected_chr < 256
        &&& self.selected_chr_hi < 256
    }

    /// The stored bytes at `p` hold a state that this cartridge can take.
    pub open spec fn state_valid(&self, d: Seq<u8>, p: int) -> bool {
        &&& mirror_from_code(d[(p + LOW_SPACE_SIZE + self.ppu.chr@.len() + VRAM_SIZE + PALETTE_SIZE + 1)]) is Some
        &&& (d[(p + LOW_SPACE_SIZE + self.ppu.chr@.len() + VRAM_SIZE + PALETTE_SIZE + 3)] as usize) < self.prg_banks_16k@.len()
        &&& (d[(p + LOW_SPACE_SIZE + self.ppu.chr@.len() + VRAM_SIZE + PALETTE_SIZE + 4)] as usize) < self.prg_banks_16k@.len()
        &&& mirror_from_code(d[(p + LOW_SPACE_SIZE + self.ppu.chr@.len() + VRAM_SIZE + PALETTE_SIZE + 8)]) is Some
        &&& self.chr_banks_8k@.len() > 0 ==> !((d[(p + LOW_SPACE_SIZE + self.ppu.chr@.len() + VRAM_SIZE + PALETTE_SIZE)] != 0))
        &&& self.chr_banks_8k@.len() == 0 ==> (d[(p + LOW_SPACE_SIZE + self.ppu.chr@.len() + VRAM_SIZE + PALETTE_SIZE + 5)] as usize) == 0
        &&& self.chr_banks_8k@.len() > 0 && self.mapper_type != MapperType::M184 ==> (d[(p + LOW_SPACE_SIZE + self.ppu.chr@.len() + VRAM_SIZE + PALETTE_SIZE + 5)] as usize) < self.chr_banks_8k@.len() && (d.subrange((p + LOW_SPACE_SIZE), (p + LOW_SPACE_SIZE) + self.ppu.chr@.len())) == self.chr_banks_8k@[(d[(p + LOW_SPACE_SIZE + self.ppu.chr@.len() + VRAM_SIZE + PALETTE_SIZE + 5)] as usize) as int]@
    }

    /// What `load_state` answers for the bytes at `p`.
    pub open spec fn load_outcome(&self, d: Seq<u8>, p: int) -> Result<(), StateError> {
        if p + self.state_len() > d.len() {
            Err(StateError::UnexpectedEof)
        } else if !self.state_valid(d, p) {
            Err(StateError::InvalidValue)
        } else {
            Ok(())
        }
    }

    /// Every saved field holds what the bytes at `p` store.
    pub open spec fn loaded_from(&self, d: Seq<u8>, p: int) -> bool {
        &&& self.ram@ == d.subrange(p, p + LOW_SPACE_SIZE)
        &&& self.ppu.chr@ == d.subrange((p + LOW_SPACE_SIZE), (p + LOW_SPACE_SIZE) + self.ppu.chr@.len())
        &&& self.ppu.vram@ == d.subrange((p + LOW_SPACE_SIZE + self.ppu.chr@.len()), (p + LOW_SPACE_SIZE + self.ppu.chr@.len()) + VRAM_SIZE)
        &&& self.ppu.palette@ == d.subrange((p + LOW_SPACE_SIZE + self.ppu.chr@.len() + VRAM_SIZE), (p + LOW_SPACE_SIZE + self.ppu.chr@.len() + VRAM_SIZE) + PALETTE_SIZE)
        &&& self.ppu.chr_is_ram == (d[(p + LOW_SPACE_SIZE + self.ppu.chr@.len() + VRAM_SIZE + PALETTE_SIZE)] != 0)
        &&& self.selected_prg == d[(p + LOW_SPACE_SIZE + self.ppu.chr@.len() + VRAM_SIZE + PALETTE_SIZE + 2)] as usize
        &&& self.prg_lo == d[(p + LOW_SPACE_SIZE + self.ppu.chr@.len() + VRAM_SIZE + PALETTE_SIZE + 3)] as usize
        &&& self.prg_hi == d[(p + LOW_SPACE_SIZE + self.ppu.chr@.len() + VRAM_SIZE + PALETTE_SIZE + 4)] as usize
        &&& self.selected_chr == d[(p + LOW_SPACE_SIZE + self.ppu.chr@.len() + VRAM_SIZE + PALETTE_SIZE + 5)] as usize
        &&& self.selected_chr_hi == d[(p + LOW_SPACE_SIZE + self.ppu.chr@.len() + VRAM_SIZE + PALETTE_SIZE + 6)] as usize
        &&& self.chr_enabled == (d[(p + LOW_SPACE_SIZE + self.ppu.chr@.len() + VRAM_SIZE + PALETTE_SIZE + 7)] != 0)
        &&& self.ppu.mirroring == mirror_from_code(d[(p + LOW_SPACE_SIZE + self.ppu.chr@.len() + VRAM_SIZE + PALETTE_SIZE + 8)])->0
        &&& self.controllers@[0] == controller_at(d, (p + LOW_SPACE_SIZE + self.ppu.chr@.len() + VRAM_SIZE + PALETTE_SIZE + 9))
        &&& self.controllers@[1] == controller_at(d, (p + LOW_SPACE_SIZE + self.ppu.chr@.len() + VRAM_SIZE + PALETTE_SIZE + 9) + CONTROLLER_STATE_LEN)
    }

    /// The two agree on every saved field.
    pub open spec fn same_state(&self, other: &Self) -> bool {
        &&& self.ram@ == other.ram@
        &&& self.ppu.chr@ == other.ppu.chr@
        &&& self.ppu.vram@ == other.ppu.vram@
        &&& self.ppu.palette@ == other.ppu.palette@
        &&& self.ppu.chr_is_ram == other.ppu.chr_is_ram
        &&& self.selected_prg == other.selected_prg
        &&& self.prg_lo == other.prg_lo
        &&& self.prg_hi == other.prg_hi
        &&& self.selected_chr == other.selected_chr
        &&& self.selected_chr_hi == other.selected_chr_hi
        &&& self.chr_enabled == other.chr_enabled
        &&& self.ppu.mirroring == other.ppu.mirroring
        &&& self.controllers@ == other.controllers@
    }

    /// The two agree on every field that the state does not store.
    pub open spec fn keeps_unsaved(&self, other: &Self) -> bool {
        &&& self.mapper_type == other.mapper_type
        &&& self.prg_banks_16k == other.prg_banks_16k
        &&& self.chr_banks_8k == other.chr_banks_8k
        &&& self.submapper == other.submapper
    }

    /// The two come from cartridges of the same shape.
    pub open spec fn same_layout(&self, other: &Self) -> bool {
        &&& self.mapper_type == other.mapper_type
        &&& self.prg_banks_16k@.len() == other.prg_banks_16k@.len()
        &&& self.chr_banks_8k@ == other.chr_banks_8k@
        &&& self.ppu.chr@.len() == other.ppu.chr@.len()
    }

    #[verifier::spinoff_prover]
    pub fn save_state(&self, w: &mut SavestateWriter)
        ensures
            final(w).buf@ == old(w).buf@ + self.state_bytes(),
    {
        let ghost b = w.buf@;
        let ghost s0 = self.ram@;
        let ghost s1 = s0 + self.ppu.chr@;
        let ghost s2 = s1 + self.ppu.vram@;
        let ghost s3 = s2 + self.ppu.palette@;
        let ghost s4 = s3 + enc_bool(self.ppu.chr_is_ram);
        let ghost s5 = s4 + enc_u8(mirror_code(self.ppu.mirroring));
        let ghost s6 = s5 + enc_u8(self.selected_prg as u8);
        let ghost s7 = s6 + enc_u8(self.prg_lo as u8);
        let ghost s8 = s7 + enc_u8(self.prg_hi as u8);
        let ghost s9 = s8 + enc_u8(self.selected_chr as u8);
        let ghost s10 = s9 + enc_u8(self.selected_chr_hi as u8);
        let ghost s11 = s10 + enc_bool(self.chr_enabled);
        let ghost s12 = s11 + enc_u8(mirror_code(self.ppu.mirroring));
        let ghost s13 = s12 + controllers_bytes(self.controllers);
        w.write_bytes(self.ram.as_slice());
        w.write_bytes(self.ppu.chr.as_slice());
        proof {
            lemma_add_assoc(b, s0, self.ppu.chr@);
        }
        w.write_bytes(self.ppu.vram.as_slice());
        proof {
            lemma_add_assoc(b, s1, self.ppu.vram@);
        }
        w.write_bytes(self.ppu.palette.as_slice());
        proof {
            lemma_add_assoc(b, s2, self.ppu.palette@);
        }
        w.write_bool(self.ppu.chr_is_ram);
        proof {
            lemma_add_assoc(b, s3, enc_bool(self.ppu.chr_is_ram));
        }
        save_mirroring(w, self.ppu.mirroring);
        proof {
            lemma_add_assoc(b, s4, enc_u8(mirror_code(self.ppu.mirroring)));
        }
        w.write_u8(self.selected_prg as u8);
        proof {
            lemma_add_assoc(b, s5, enc_u8(self.selected_prg as u8));
        }
        w.write_u8(self.prg_lo as u8);
        proof {
            lemma_add_assoc(b, s6, enc_u8(self.prg_lo as u8));
        }
        w.write_u8(self.prg_hi as u8);
        proof {
            lemma_add_assoc(b, s7, enc_u8(self.prg_hi as u8));
        }
        w.write_u8(self.selected_chr as u8);
        proof {
            lemma_add_assoc(b, s8, enc_u8(self.selected_chr as u8));
        }
        w.write_u8(self.selected_chr_hi as u8);
        proof {
            lemma_add_assoc(b, s9, enc_u8(self.selected_chr_hi as u8));
        }
        w.write_bool(self.chr_enabled);
        proof {
            lemma_add_assoc(b, s10, enc_bool(self.chr_enabled));
        }
        save_mirroring(w, self.ppu.mirroring);
        proof {
            lemma_add_assoc(b, s11, enc_u8(mirror_code(self.ppu.mirroring)));
        }
        save_controllers(w, &self.controllers);
        proof {
            lemma_add_assoc(b, s12, controllers_bytes(self.controllers));
        }
    }

    /// Restores a state written by `save_state`. Nothing changes unless the
    /// whole state is there and holds values this cartridge can take.
    #[verifier::spinoff_prover]
    pub fn load_state(&mut self, r: &mut SavestateReader) -> (res: Result<(), StateError>)
        requires
            old(self).wf(),
            old(r).wf(),
        ensures
            final(r).wf(),
            final(r).data@ == old(r).data@,
            res == old(self).load_outcome(old(r).data@, old(r).pos as int),
            res is Err ==> *final(self) == *old(self) && final(r).pos == old(r).pos,
            res is Ok ==> final(self).wf() && final(self).loaded_from(old(r).data@, old(r).pos as int)
                && final(self).keeps_unsaved(&*old(self)) && final(self).same_layout(&*old(self))
                && final(r).pos == old(r).pos + old(self).state_len(),
    {
        let ghost d = r.data@;
        let ghost p = r.pos as int;
        let start = r.pos;
        let rem = r.remaining_len();
        if rem < self.ppu.chr.len() || rem - self.ppu.chr.len() < LOW_SPACE_SIZE + VRAM_SIZE + PALETTE_SIZE + 2 * CONTROLLER_STATE_LEN + 9 {
            return Err(StateError::UnexpectedEof);
        }
        let ram = r.take_bytes(LOW_SPACE_SIZE);
        let ppu_chr = r.take_bytes(self.ppu.chr.len());
        let ppu_vram = r.take_bytes(VRAM_SIZE);
        let ppu_palette = r.take_bytes(PALETTE_SIZE);
        let ppu_chr_is_ram = r.take_bool();
        let ppu_mirroring_saved_code = r.take_u8();
        let selected_prg = r.take_u8() as usize;
        let prg_lo = r.take_u8() as usize;
        let prg_hi = r.take_u8() as usize;
        let selected_chr = r.take_u8() as usize;
        let selected_chr_hi = r.take_u8() as usize;
        let chr_enabled = r.take_bool();
        let ppu_mirroring_code = r.take_u8();
        let controllers = take_controllers(r);
        if mirroring_from_code(ppu_mirroring_saved_code).is_none() {
            r.rewind(start);
            return Err(StateError::InvalidValue);
        }
        let ppu_mirroring = match mirroring_from_code(ppu_mirroring_code) {
            Some(m) => m,
            None => {
                r.rewind(start);
                return Err(StateError::InvalidValue);
            },
        };
        if (prg_lo >= self.prg_banks_16k.len())
            || (prg_hi >= self.prg_banks_16k.len())
            || (self.chr_banks_8k.len() > 0 && ppu_chr_is_ram)
            || (self.chr_banks_8k.len() == 0 && selected_chr != 0)
            || (self.chr_banks_8k.len() > 0 && self.mapper_type != MapperType::M184 && (selected_chr >= self.chr_banks_8k.len() || !bank_matches(&ppu_chr, &self.chr_banks_8k[selected_chr]))) {
            r.rewind(start);
            return Err(StateError::InvalidValue);
        }
        self.ram = ram;
        self.ppu.chr = ppu_chr;
        self.ppu.vram = ppu_vram;
        self.ppu.palette = ppu_palette;
        self.ppu.chr_is_ram = ppu_chr_is_ram;
        self.selected_prg = selected_prg;
        self.prg_lo = prg_lo;
        self.prg_hi = prg_hi;
        self.selected_chr = selected_chr;
        self.selected_chr_hi = selected_chr_hi;
        self.chr_enabled = chr_enabled;
        self.ppu.mirroring = ppu_mirroring;
        self.controllers = controllers;
        Ok(())
    }

    /// Saving a state and loading it into a cartridge of the same shape
    /// succeeds and restores every saved field.
    #[verifier::spinoff_prover]
    pub proof fn lemma_state_roundtrip(o: Self, m: Self, n: Self, d: Seq<u8>, p: int)
        requires
            o.wf(),
            m.wf(),
            m.fits(),
            o.same_layout(&m),
            n.same_layout(&m),
            stored_at(d, p, m.state_bytes()),
        ensures
            o.load_outcome(d, p) == Ok::<(), StateError>(()),
            n.loaded_from(d, p) ==> n.same_state(&m),
    {
        let s0 = m.ram@;
        let s1 = s0 + m.ppu.chr@;
        let s2 = s1 + m.ppu.vram@;
        let s3 = s2 + m.ppu.palette@;
        let s4 = s3 + enc_bool(m.ppu.chr_is_ram);
        let s5 = s4 + enc_u8(mirror_code(m.ppu.mirroring));
        let s6 = s5 + enc_u8(m.selected_prg as u8);
        let s7 = s6 + enc_u8(m.prg_lo as u8);
        let s8 = s7 + enc_u8(m.prg_hi as u8);
        let s9 = s8 + enc_u8(m.selected_chr as u8);
        let s10 = s9 + enc_u8(m.selected_chr_hi as u8);
        let s11 = s10 + enc_bool(m.chr_enabled);
        let s12 = s11 + enc_u8(mirror_code(m.ppu.mirroring));
        let s13 = s12 + controllers_bytes(m.controllers);
        lemma_stored_split(d, p, s12, controllers_bytes(m.controllers));
        lemma_stored_split(d, p, s11, enc_u8(mirror_code(m.ppu.mirroring)));
        lemma_stored_split(d, p, s10, enc_bool(m.chr_enabled));
        lemma_stored_split(d, p, s9, enc_u8(m.selected_chr_hi as u8));
        lemma_stored_split(d, p, s8, enc_u8(m.selected_chr as u8));
        lemma_stored_split(d, p, s7, enc_u8(m.prg_hi as u8));
        lemma_stored_split(d, p, s6, enc_u8(m.prg_lo as u8));
        lemma_stored_split(d, p, s5, enc_u8(m.selected_prg as u8));
        lemma_stored_split(d, p, s4, enc_u8(mirror_code(m.ppu.mirroring)));
        lemma_stored_split(d, p, s3, enc_bool(m.ppu.chr_is_ram));
        lemma_stored_split(d, p, s2, m.ppu.palette@);
        lemma_stored_split(d, p, s1, m.ppu.vram@);
        lemma_stored_split(d, p, s0, m.ppu.chr@);
        lemma_stored_bool(d, (p + LOW_SPACE_SIZE + m.ppu.chr@.len() + VRAM_SIZE + PALETTE_SIZE), m.ppu.chr_is_ram);
        lemma_stored_u8(d, (p + LOW_SPACE_SIZE + m.ppu.chr@.len() + VRAM_SIZE + PALETTE_SIZE + 1), mirror_code(m.ppu.mirroring));
        lemma_mirror_code_roundtrip(m.ppu.mirroring);
        lemma_stored_u8(d, (p + LOW_SPACE_SIZE + m.ppu.chr@.len() + VRAM_SIZE + PALETTE_SIZE + 2), m.selected_prg as u8);
        lemma_stored_u8(d, (p + LOW_SPACE_SIZE + m.ppu.chr@.len() + VRAM_SIZE + PALETTE_SIZE + 3), m.prg_lo as u8);
        lemma_stored_u8(d, (p + LOW_SPACE_SIZE + m.ppu.chr@.len() + VRAM_SIZE + PALETTE_SIZE + 4), m.prg_hi as u8);
        lemma_stored_u8(d, (p + LOW_SPACE_SIZE + m.ppu.chr@.len() + VRAM_SIZE + PALETTE_SIZE + 5), m.selected_chr as u8);
        lemma_stored_u8(d, (p + LOW_SPACE_SIZE + m.ppu.chr@.len() + VRAM_SIZE + PALETTE_SIZE + 6), m.selected_chr_hi as u8);
        lemma_stored_bool(d, (p + LOW_SPACE_SIZE + m.ppu.chr@.len() + VRAM_SIZE + PALETTE_SIZE + 7), m.chr_enabled);
        lemma_stored_u8(d, (p + LOW_SPACE_SIZE + m.ppu.chr@.len() + VRAM_SIZE + PALETTE_SIZE + 8), mirror_code(m.ppu.mirroring));
        lemma_mirror_code_roundtrip(m.ppu.mirroring);
        lemma_stored_controllers(d, (p + LOW_SPACE_SIZE + m.ppu.chr@.len() + VRAM_SIZE + PALETTE_SIZE + 9), m.controllers);
        if n.loaded_from(d, p) {
            assert(n.controllers@ =~= m.controllers@);
        }
    }
}

} // verus!
