//! Namco 175 and 340 (mapper 210): eight 1KB CHR registers, three switchable
//! 8KB PRG banks before a fixed last bank, PRG RAM that the 175 can disable,
//! and mirroring that only the 340 controls.

use vstd::prelude::*;
use crate::bus::{NametableMirror, CPU_RAM_SIZE, VRAM_SIZE, PALETTE_SIZE, RESET_TARGET_ADDR, nt_offset, mirror_nametable_addr, palette_slot, palette_index, word, make_word};
use crate::ppu_bus::{zeroed, filled};
use crate::controller::Controller;
use crate::mapper::common::{new_controllers, split_16k_to_8k};
use crate::mapper::irem_g101::sat_sub;

use crate::savestate::{SavestateWriter, SavestateReader, StateError, enc_u8, enc_bool, stored_at, lemma_stored_split, lemma_stored_u8, lemma_stored_bool, copy_into_array};
use crate::controller::{controllers_bytes, controller_at, save_controllers, take_controllers, lemma_stored_controllers, CONTROLLER_STATE_LEN};
use crate::ppu_bus::{mirror_code, mirror_from_code, mirroring_from_code, save_mirroring, lemma_mirror_code_roundtrip};

verus! {

pub const PRG_BANK_SIZE: usize = 0x2000;
pub const CHR_BANK_SIZE: usize = 0x0400;
pub const PRG_RAM_8K: usize = 0x2000;

pub struct Namco175_340Mapper {
    pub controllers: [Controller; 2],
    pub prg_rom: Vec<[u8; PRG_BANK_SIZE]>,
    pub chr_8k: Vec<[u8; 8192]>,
    pub prg_banks: [u8; 3],
    pub chr_banks: [u8; 8],
    pub mirroring: NametableMirror,
    pub is_namco340: bool,
    pub prg_ram: Vec<u8>,
    pub prg_ram_enabled: bool,
    pub vram: Vec<u8>,
    pub cpu_ram: Vec<u8>,
    pub palette_ram: Vec<u8>,
}

/// The mirroring that bits 6-7 of a 340's $E000 write select.
pub open spec fn n340_mirroring(value: u8) -> NametableMirror {
    let m = (value >> 6u8) & 3;
    if m == 0 {
        NametableMirror::Lower
    } else if m == 1 {
        NametableMirror::Vertical
    } else if m == 2 {
        NametableMirror::Higher
    } else {
        NametableMirror::Horizontal
    }
}

impl Namco175_340Mapper {
    pub open spec fn wf(&self) -> bool {
        &&& self.cpu_ram@.len() == CPU_RAM_SIZE
        &&& self.prg_ram@.len() == PRG_RAM_8K
        &&& self.vram@.len() == VRAM_SIZE
        &&& self.palette_ram@.len() == PALETTE_SIZE
        &&& 8 * self.chr_8k@.len() <= usize::MAX
        &&& self.is_namco340 ==> !self.prg_ram_enabled
    }

    pub open spec fn spec_prg_bank_at(&self, addr: u16) -> int {
        let len = self.prg_rom@.len() as int;
        let m: int = if len == 0 { 1 } else { len };
        if addr >= 0xE000 {
            sat_sub(len, 1)
        } else {
            ((self.prg_banks@[((addr as int) - 0x8000) / 0x2000] & 0x3F) as int) % m
        }
    }

    pub open spec fn spec_cpu_read(&self, addr: u16) -> u8 {
        if addr <= 0x1FFF {
            self.cpu_ram@[(addr as int) % 0x800]
        } else if 0x6000 <= addr <= 0x7FFF {
            if self.prg_ram_enabled { self.prg_ram@[addr - 0x6000] } else { 0 }
        } else if addr >= 0x8000 {
            let bank = self.spec_prg_bank_at(addr);
            if bank < self.prg_rom@.len() { self.prg_rom@[bank][(addr as int) % 0x2000] } else { 0 }
        } else {
            0
        }
    }

    pub open spec fn spec_chr_index(&self, addr: u16) -> int {
        let n: int = if self.chr_8k@.len() == 0 { 1 } else { 8 * self.chr_8k@.len() as int };
        self.chr_banks@[((addr as int) / 1024) % 8] as int % n
    }

    pub open spec fn spec_ppu_read(&self, addr: u16) -> u8 {
        if addr <= 0x1FFF {
            let idx = self.spec_chr_index(addr);
            if self.chr_8k@.len() == 0 { 0 } else { self.chr_8k@[idx / 8][(idx % 8) * 1024 + (addr as int) % 1024] }
        } else if addr <= 0x3EFF {
            self.vram@[nt_offset(addr, self.mirroring)]
        } else if addr <= 0x3FFF {
            self.palette_ram@[palette_slot(addr)]
        } else {
            0
        }
    }

    /// What `new` builds from its arguments.
    pub open spec fn built_by_new(flags: u8, prg_banks_16k: Vec<[u8; 16384]>, chr_banks_8k: Vec<[u8; 8192]>, submapper: u8, m: Namco175_340Mapper) -> bool {
        &&& (m.wf())
        &&& (m.prg_rom@.len() == 2 * prg_banks_16k@.len())
        &&& (forall|i: int| 0 <= i < m.prg_rom@.len() ==> #[trigger] m.prg_rom@[i]@ == prg_banks_16k@[i / 2]@.subrange(
                (i % 2) * 8192,
                (i % 2) * 8192 + 8192,
            ))
        &&& (m.chr_8k@ == chr_banks_8k@)
        &&& (m.prg_banks@ == seq![0u8, 1, 2])
        &&& (forall|i: int| 0 <= i < 8 ==> m.chr_banks@[i] == i)
        &&& (m.is_namco340 == (submapper == 2))
        &&& (m.prg_ram_enabled == (submapper != 2))
        &&& (m.mirroring == (if flags & 1 != 0 { NametableMirror::Vertical } else { NametableMirror::Horizontal }))
        &&& (m.prg_ram@ == Seq::new(PRG_RAM_8K as nat, |i: int| 0u8))
        &&& (m.cpu_ram@ == Seq::new(CPU_RAM_SIZE as nat, |i: int| 0u8))
        &&& (m.vram@ == Seq::new(VRAM_SIZE as nat, |i: int| 0u8))
        &&& (m.palette_ram@ == Seq::new(PALETTE_SIZE as nat, |i: int| 0x0Fu8))
    }

    /// Submapper 2 is the 340, which has no PRG RAM enable and starts with it
    /// off; the 175 starts with PRG RAM on.
    pub fn new(flags: u8, prg_banks_16k: Vec<[u8; 16384]>, chr_banks_8k: Vec<[u8; 8192]>, submapper: u8) -> (m: Namco175_340Mapper)
        requires
            2 * prg_banks_16k@.len() <= usize::MAX,
            8 * chr_banks_8k@.len() <= usize::MAX,
        ensures
            m.wf(),
            m.prg_rom@.len() == 2 * prg_banks_16k@.len(),
            forall|i: int| 0 <= i < m.prg_rom@.len() ==> #[trigger] m.prg_rom@[i]@ == prg_banks_16k@[i / 2]@.subrange(
                (i % 2) * 8192,
                (i % 2) * 8192 + 8192,
            ),
            m.chr_8k@ == chr_banks_8k@,
            m.prg_banks@ == seq![0u8, 1, 2],
            forall|i: int| 0 <= i < 8 ==> m.chr_banks@[i] == i,
            m.is_namco340 == (submapper == 2),
            m.prg_ram_enabled == (submapper != 2),
            m.mirroring == (if flags & 1 != 0 { NametableMirror::Vertical } else { NametableMirror::Horizontal }),
            m.prg_ram@ == Seq::new(PRG_RAM_8K as nat, |i: int| 0u8),
            m.cpu_ram@ == Seq::new(CPU_RAM_SIZE as nat, |i: int| 0u8),
            m.vram@ == Seq::new(VRAM_SIZE as nat, |i: int| 0u8),
            m.palette_ram@ == Seq::new(PALETTE_SIZE as nat, |i: int| 0x0Fu8),
            Self::built_by_new(flags, prg_banks_16k, chr_banks_8k, submapper, m),
    {
        let prg_rom = split_16k_to_8k(&prg_banks_16k);
        let is_namco340 = submapper == 2;
        let mirroring = if flags & 1 != 0 { NametableMirror::Vertical } else { NametableMirror::Horizontal };
        let m = Namco175_340Mapper {
            controllers: new_controllers(),
            prg_rom,
            chr_8k: chr_banks_8k,
            prg_banks: [0, 1, 2],
            chr_banks: [0, 1, 2, 3, 4, 5, 6, 7],
            mirroring,
            is_namco340,
            prg_ram: zeroed(PRG_RAM_8K),
            prg_ram_enabled: !is_namco340,
            vram: zeroed(VRAM_SIZE),
            cpu_ram: zeroed(CPU_RAM_SIZE),
            palette_ram: filled(PALETTE_SIZE, 0x0F),
        };
        assert(m.prg_banks@ == seq![0u8, 1, 2]);
        m
    }

    fn chr_1k_index(&self, addr: u16) -> (r: usize)
        requires
            self.wf(),
        ensures
            r as int == self.spec_chr_index(addr),
            self.chr_8k@.len() > 0 ==> r < 8 * self.chr_8k@.len(),
    {
        let n = if self.chr_8k.len() == 0 { 1 } else { 8 * self.chr_8k.len() };
        self.chr_banks[((addr / 1024) % 8) as usize] as usize % n
    }

    pub fn cpu_read(&self, addr: u16) -> (r: u8)
        requires
            self.wf(),
        ensures
            r == self.spec_cpu_read(addr),
    {
        if addr <= 0x1FFF {
            return self.cpu_ram[(addr % 0x800) as usize];
        }
        if 0x6000 <= addr && addr <= 0x7FFF {
            return if self.prg_ram_enabled { self.prg_ram[(addr - 0x6000) as usize] } else { 0 };
        }
        if addr < 0x8000 {
            return 0;
        }
        let len = self.prg_rom.len();
        let m = if len == 0 { 1 } else { len };
        let bank: usize = if addr >= 0xE000 {
            len.saturating_sub(1)
        } else {
            ((self.prg_banks[((addr - 0x8000) / 0x2000) as usize] & 0x3F) as usize) % m
        };
        if bank < len {
            self.prg_rom[bank][(addr % 0x2000) as usize]
        } else {
            0
        }
    }

    /// $8000-$BFFF in 2KB steps: the eight CHR registers; $C000: PRG RAM
    /// enable (175 only); $E000/$E800/$F000: PRG banks, and on the 340 the
    /// mirroring from bits 6-7 of the $E000 write.
    pub fn cpu_write(&mut self, addr: u16, value: u8)
        requires
            old(self).wf(),
        ensures
            final(self).wf(),
            addr <= 0x1FFF ==> final(self).cpu_ram@ == old(self).cpu_ram@.update((addr as int) % 0x800, value),
            addr > 0x1FFF ==> final(self).cpu_ram == old(self).cpu_ram,
            0x6000 <= addr <= 0x7FFF && old(self).prg_ram_enabled ==> final(self).prg_ram@ == old(self).prg_ram@.update(addr - 0x6000, value),
            !(0x6000 <= addr <= 0x7FFF && old(self).prg_ram_enabled) ==> final(self).prg_ram == old(self).prg_ram,
            0x8000 <= addr <= 0xBFFF ==> final(self).chr_banks@ == old(self).chr_banks@.update(((addr as int) - 0x8000) / 0x800, value),
            !(0x8000 <= addr <= 0xBFFF) ==> final(self).chr_banks == old(self).chr_banks,
            final(self).prg_ram_enabled == (if 0xC000 <= addr <= 0xC7FF && !old(self).is_namco340 {
                value & 1 != 0
            } else {
                old(self).prg_ram_enabled
            }),
            0xE000 <= addr <= 0xF7FF ==> final(self).prg_banks@ == old(self).prg_banks@.update(((addr as int) - 0xE000) / 0x800, value & 0x3F),
            !(0xE000 <= addr <= 0xF7FF) ==> final(self).prg_banks == old(self).prg_banks,
            final(self).mirroring == (if 0xE000 <= addr <= 0xE7FF && old(self).is_namco340 {
                n340_mirroring(value)
            } else {
                old(self).mirroring
            }),
            final(self).is_namco340 == old(self).is_namco340,
            final(self).prg_rom == old(self).prg_rom,
            final(self).chr_8k == old(self).chr_8k,
            final(self).vram == old(self).vram,
            final(self).palette_ram == old(self).palette_ram,
            final(self).controllers == old(self).controllers,
    {
        if addr <= 0x1FFF {
            self.cpu_ram.set((addr % 0x800) as usize, value);
        } else if 0x6000 <= addr && addr <= 0x7FFF {
            if self.prg_ram_enabled {
                self.prg_ram.set((addr - 0x6000) as usize, value);
            }
        } else if 0x8000 <= addr && addr <= 0xBFFF {
            self.chr_banks[((addr - 0x8000) / 0x800) as usize] = value;
        } else if 0xC000 <= addr && addr <= 0xC7FF {
            if !self.is_namco340 {
                self.prg_ram_enabled = value & 1 != 0;
            }
        } else if 0xE000 <= addr && addr <= 0xF7FF {
            self.prg_banks[((addr - 0xE000) / 0x800) as usize] = value & 0x3F;
            if addr <= 0xE7FF && self.is_namco340 {
                let m = (value >> 6) & 3;
                self.mirroring = if m == 0 {
                    NametableMirror::Lower
                } else if m == 1 {
                    NametableMirror::Vertical
                } else if m == 2 {
                    NametableMirror::Higher
                } else {
                    NametableMirror::Horizontal
                };
            }
        }
    }

    pub fn ppu_read(&self, addr: u16) -> (r: u8)
        requires
            self.wf(),
        ensures
            r == self.spec_ppu_read(addr),
    {
        if addr <= 0x1FFF {
            if self.chr_8k.len() == 0 {
                return 0;
            }
            let idx = self.chr_1k_index(addr);
            self.chr_8k[idx / 8][(idx % 8) * 1024 + (addr % 1024) as usize]
        } else if addr <= 0x3EFF {
            self.vram[mirror_nametable_addr(addr, self.mirroring) as usize]
        } else if addr <= 0x3FFF {
            self.palette_ram[palette_index(addr)]
        } else {
            0
        }
    }

    /// Nametable and palette writes; the pattern tables are ROM.
    pub fn ppu_write(&mut self, addr: u16, value: u8)
        requires
            old(self).wf(),
        ensures
            final(self).wf(),
            0x2000 <= addr <= 0x3EFF ==> final(self).vram@ == old(self).vram@.update(nt_offset(addr, old(self).mirroring), value),
            !(0x2000 <= addr <= 0x3EFF) ==> final(self).vram == old(self).vram,
            0x3F00 <= addr <= 0x3FFF ==> final(self).palette_ram@ == old(self).palette_ram@.update(palette_slot(addr), value),
            !(0x3F00 <= addr <= 0x3FFF) ==> final(self).palette_ram == old(self).palette_ram,
            final(self).cpu_ram == old(self).cpu_ram,
            final(self).prg_ram == old(self).prg_ram,
            final(self).prg_ram_enabled == old(self).prg_ram_enabled,
            final(self).chr_banks == old(self).chr_banks,
            final(self).prg_banks == old(self).prg_banks,
            final(self).mirroring == old(self).mirroring,
            final(self).prg_rom == old(self).prg_rom,
            final(self).chr_8k == old(self).chr_8k,
    {
        if 0x2000 <= addr && addr <= 0x3EFF {
            let i = mirror_nametable_addr(addr, self.mirroring) as usize;
            self.vram.set(i, value);
        } else if 0x3F00 <= addr && addr <= 0x3FFF {
            let i = palette_index(addr);
            self.palette_ram.set(i, value);
        }
    }

    pub fn code_start(&self) -> (r: u16)
        requires
            self.wf(),
        ensures
            r == word(self.spec_cpu_read(RESET_TARGET_ADDR), self.spec_cpu_read(0xFFFD)),
    {
        make_word(self.cpu_read(RESET_TARGET_ADDR), self.cpu_read(RESET_TARGET_ADDR + 1))
    }

    pub fn poll_irq(&self) -> (r: bool)
        ensures
            !r,
    {
        false
    }

    pub fn mapper_id(&self) -> (r: u8)
        ensures
            r == 210,
    {
        210
    }
}

impl Namco175_340Mapper {
    /// The bytes `save_state` appends.
    pub open spec fn state_bytes(&self) -> Seq<u8> {
        self.cpu_ram@
            + self.vram@
            + self.palette_ram@
            + self.prg_ram@
            + self.chr_banks@
            + self.prg_banks@
            + enc_bool(self.prg_ram_enabled)
            + enc_u8(mirror_code(self.mirroring))
            + controllers_bytes(self.controllers)
    }

    /// Length of the saved state.
    pub open spec fn state_len(&self) -> nat {
        (CPU_RAM_SIZE + VRAM_SIZE + PALETTE_SIZE + PRG_RAM_8K + 2 * CONTROLLER_STATE_LEN + 13) as nat
    }

    /// Every register that the state stores in fewer bits than it is held in
    /// fits in those bits.
    pub open spec fn fits(&self) -> bool {
        true
    }

    /// The stored bytes at `p` hold a state that this cartridge can take.
    pub open spec fn state_valid(&self, d: Seq<u8>, p: int) -> bool {
        &&& mirror_from_code(d[(p + CPU_RAM_SIZE + VRAM_SIZE + PALETTE_SIZE + PRG_RAM_8K + 12)]) is Some
        &&& self.is_namco340 ==> d[(p + CPU_RAM_SIZE + VRAM_SIZE + PALETTE_SIZE + PRG_RAM_8K + 11)] == 0
    }

    /// What `load_state` answers for the bytes at `p`.
    pub open spec fn load_outcome(&self, d: Seq<u8>, p: int) -> Result<(), StateError> {
        if p + self.state_len() > d.len() {
            Err(StateError::UnexpectedEof)
        } else if !self.state_valid(d, p) {
            Err(StateError::InvalidValue)
        } else {
            Ok(())
        }
    }

    /// Every saved field holds what the bytes at `p` store.
    pub open spec fn loaded_from(&self, d: Seq<u8>, p: int) -> bool {
        &&& self.cpu_ram@ == d.subrange(p, p + CPU_RAM_SIZE)
        &&& self.vram@ == d.subrange((p + CPU_RAM_SIZE), (p + CPU_RAM_SIZE) + VRAM_SIZE)
        &&& self.palette_ram@ == d.subrange((p + CPU_RAM_SIZE + VRAM_SIZE), (p + CPU_RAM_SIZE + VRAM_SIZE) + PALETTE_SIZE)
        &&& self.prg_ram@ == d.subrange((p + CPU_RAM_SIZE + VRAM_SIZE + PALETTE_SIZE), (p + CPU_RAM_SIZE + VRAM_SIZE + PALETTE_SIZE) + PRG_RAM_8K)
        &&& self.chr_banks@ == d.subrange((p + CPU_RAM_SIZE + VRAM_SIZE + PALETTE_SIZE + PRG_RAM_8K), (p + CPU_RAM_SIZE + VRAM_SIZE + PALETTE_SIZE + PRG_RAM_8K) + 8)
        &&& self.prg_banks@ == d.subrange((p + CPU_RAM_SIZE + VRAM_SIZE + PALETTE_SIZE + PRG_RAM_8K + 8), (p + CPU_RAM_SIZE + VRAM_SIZE + PALETTE_SIZE + PRG_RAM_8K + 8) + 3)
        &&& self.prg_ram_enabled == (d[(p + CPU_RAM_SIZE + VRAM_SIZE + PALETTE_SIZE + PRG_RAM_8K + 11)] != 0)
        &&& self.mirroring == mirror_from_code(d[(p + CPU_RAM_SIZE + VRAM_SIZE + PALETTE_SIZE + PRG_RAM_8K + 12)])->0
        &&& self.controllers@[0] == controller_at(d, (p + CPU_RAM_SIZE + VRAM_SIZE + PALETTE_SIZE + PRG_RAM_8K + 13))
        &&& self.controllers@[1] == controller_at(d, (p + CPU_RAM_SIZE + VRAM_SIZE + PALETTE_SIZE + PRG_RAM_8K + 13) + CONTROLLER_STATE_LEN)
    }

    /// The two agree on every saved field.
    pub open spec fn same_state(&self, other: &Self) -> bool {
        &&& self.cpu_ram@ == other.cpu_ram@
        &&& self.vram@ == other.vram@
        &&& self.palette_ram@ == other.palette_ram@
        &&& self.prg_ram@ == other.prg_ram@
        &&& self.chr_banks@ == other.chr_banks@
        &&& self.prg_banks@ == other.prg_banks@
        &&& self.prg_ram_enabled == other.prg_ram_enabled
        &&& self.mirroring == other.mirroring
        &&& self.controllers@ == other.controllers@
    }

    /// The two agree on every field that the state does not store.
    pub open spec fn keeps_unsaved(&self, other: &Self) -> bool {
        &&& self.prg_rom == other.prg_rom
        &&& self.chr_8k == other.chr_8k
        &&& self.is_namco340 == other.is_namco340
    }

    /// The two come from cartridges of the same shape.
    pub open spec fn same_layout(&self, other: &Self) -> bool {
        self.is_namco340 == other.is_namco340
    }

    #[verifier::spinoff_prover]
    pub fn save_state(&self, w: &mut SavestateWriter)
        ensures
            final(w).buf@ == old(w).buf@ + self.state_bytes(),
    {
        w.write_bytes(self.cpu_ram.as_slice());
        w.write_bytes(self.vram.as_slice());
        w.write_bytes(self.palette_ram.as_slice());
        w.write_bytes(self.prg_ram.as_slice());
        w.write_bytes(self.chr_banks.as_slice());
        w.write_bytes(self.prg_banks.as_slice());
        w.write_bool(self.prg_ram_enabled);
        save_mirroring(w, self.mirroring);
        save_controllers(w, &self.controllers);
        assert(w.buf@ =~= old(w).buf@ + self.state_bytes());
    }

    /// Restores a state written by `save_state`. Nothing changes unless the
    /// whole state is there and holds values this cartridge can take.
    #[verifier::spinoff_prover]
    pub fn load_state(&mut self, r: &mut SavestateReader) -> (res: Result<(), StateError>)
        requires
            old(self).wf(),
            old(r).wf(),
        ensures
            final(r).wf(),
            final(r).data@ == old(r).data@,
            res == old(self).load_outcome(old(r).data@, old(r).pos as int),
            res is Err ==> *final(self) == *old(self) && final(r).pos == old(r).pos,
            res is Ok ==> final(self).wf() && final(self).loaded_from(old(r).data@, old(r).pos as int)
                && final(self).keeps_unsaved(&*old(self)) && final(self).same_layout(&*old(self))
                && final(r).pos == old(r).pos + old(self).state_len(),
    {
        let ghost d = r.data@;
        let ghost p = r.pos as int;
        let start = r.pos;
        if r.remaining_len() < CPU_RAM_SIZE + VRAM_SIZE + PALETTE_SIZE + PRG_RAM_8K + 2 * CONTROLLER_STATE_LEN + 13 {
            return Err(StateError::UnexpectedEof);
        }
        let cpu_ram = r.take_bytes(CPU_RAM_SIZE);
        let vram = r.take_bytes(VRAM_SIZE);
        let palette_ram = r.take_bytes(PALETTE_SIZE);
        let prg_ram = r.take_bytes(PRG_RAM_8K);
        let chr_banks_bytes = r.take_bytes(8);
        let mut chr_banks = self.chr_banks;
        copy_into_array(&mut chr_banks, &chr_banks_bytes);
        let prg_banks_bytes = r.take_bytes(3);
        let mut prg_banks = self.prg_banks;
        copy_into_array(&mut prg_banks, &prg_banks_bytes);
        let prg_ram_enabled = r.take_bool();
        let mirroring_code = r.take_u8();
        let controllers = take_controllers(r);
        let mirroring = match mirroring_from_code(mirroring_code) {
            Some(m) => m,
            None => {
                r.rewind(start);
                return Err(StateError::InvalidValue);
            },
        };
        if self.is_namco340 && prg_ram_enabled {
            r.rewind(start);
            return Err(StateError::InvalidValue);
        }
        self.cpu_ram = cpu_ram;
        self.vram = vram;
        self.palette_ram = palette_ram;
        self.prg_ram = prg_ram;
        self.chr_banks = chr_banks;
        self.prg_banks = prg_banks;
        self.prg_ram_enabled = prg_ram_enabled;
        self.mirroring = mirroring;
        self.controllers = controllers;
        Ok(())
    }

    /// Saving a state and loading it into a cartridge of the same shape
    /// succeeds and restores every saved field.
    #[verifier::spinoff_prover]
    pub proof fn lemma_state_roundtrip(o: Self, m: Self, n: Self, d: Seq<u8>, p: int)
        requires
            o.wf(),
            m.wf(),
            m.fits(),
            o.same_layout(&m),
            n.same_layout(&m),
            stored_at(d, p, m.state_bytes()),
        ensures
            o.load_outcome(d, p) == Ok::<(), StateError>(()),
            n.loaded_from(d, p) ==> n.same_state(&m),
    {
        let s0 = m.cpu_ram@;
        let s1 = s0 + m.vram@;
        let s2 = s1 + m.palette_ram@;
        let s3 = s2 + m.prg_ram@;
        let s4 = s3 + m.chr_banks@;
        let s5 = s4 + m.prg_banks@;
        let s6 = s5 + enc_bool(m.prg_ram_enabled);
        let s7 = s6 + enc_u8(mirror_code(m.mirroring));
        let s8 = s7 + controllers_bytes(m.controllers);
        lemma_stored_split(d, p, s7, controllers_bytes(m.controllers));
        lemma_stored_split(d, p, s6, enc_u8(mirror_code(m.mirroring)));
        lemma_stored_split(d, p, s5, enc_bool(m.prg_ram_enabled));
        lemma_stored_split(d, p, s4, m.prg_banks@);
        lemma_stored_split(d, p, s3, m.chr_banks@);
        lemma_stored_split(d, p, s2, m.prg_ram@);
        lemma_stored_split(d, p, s1, m.palette_ram@);
        lemma_stored_split(d, p, s0, m.vram@);
        lemma_stored_bool(d, (p + CPU_RAM_SIZE + VRAM_SIZE + PALETTE_SIZE + PRG_RAM_8K + 11), m.prg_ram_enabled);
        lemma_stored_u8(d, (p + CPU_RAM_SIZE + VRAM_SIZE + PALETTE_SIZE + PRG_RAM_8K + 12), mirror_code(m.mirroring));
        lemma_mirror_code_roundtrip(m.mirroring);
        lemma_stored_controllers(d, (p + CPU_RAM_SIZE + VRAM_SIZE + PALETTE_SIZE + PRG_RAM_8K + 13), m.controllers);
        if n.loaded_from(d, p) {
            assert(n.controllers@ =~= m.controllers@);
        }
    }
}

/// A Namco 340 board has no PRG RAM: in every well-formed state, which
/// construction and every operation keep, $6000-$7FFF reads 0 and writes
/// there change nothing.
pub proof fn lemma_namco340_no_prg_ram(m: Namco175_340Mapper, addr: u16)
    requires
        m.wf(),
        m.is_namco340,
        0x6000 <= addr <= 0x7FFF,
    ensures
        m.spec_cpu_read(addr) == 0,
        !m.prg_ram_enabled,
{
}

} // verus!
