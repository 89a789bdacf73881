//! Namco 108 family (mappers 206, 88, 76, 95, 154): a bank-select register
//! at even addresses and a bank-data register at odd addresses in
//! $8000-$9FFF, two switchable 8KB PRG banks before two fixed ones, and
//! 2KB/1KB CHR banks whose layout depends on the board.

use vstd::prelude::*;
use crate::bus::{NametableMirror, CPU_RAM_SIZE, VRAM_SIZE, PALETTE_SIZE, RESET_TARGET_ADDR, nt_offset, mirror_nametable_addr, palette_slot, palette_index, word, make_word};
use crate::ppu_bus::{zeroed, filled};
use crate::controller::Controller;
use crate::mapper::common::{new_controllers, split_16k_to_8k};
use crate::mapper::irem_g101::sat_sub;

use crate::savestate::{SavestateWriter, SavestateReader, StateError, enc_u8, stored_at, lemma_stored_split, lemma_stored_u8, copy_into_array};
use crate::controller::{controllers_bytes, controller_at, save_controllers, take_controllers, lemma_stored_controllers, CONTROLLER_STATE_LEN};
use crate::ppu_bus::{mirror_code, mirror_from_code, mirroring_from_code, save_mirroring, lemma_mirror_code_roundtrip};

verus! {

pub const PRG_BANK_SIZE: usize = 0x2000;
pub const CHR_BANK_SIZE: usize = 0x0400;
pub const FOUR_SCREEN_VRAM_SIZE: usize = 0x1000;

/// The board: plain 108 (206), CHR split across both pattern tables (88),
/// 2KB CHR banks (76), nametables wired to CHR bit 5 (95), and 88 with a
/// single-screen select (154).
#[derive(Clone, Copy, Debug, PartialEq, Eq, Structural)]
pub enum Namco108Variant {
    M206,
    M88,
    M76,
    M95,
    M154,
}

pub struct Namco108Mapper {
    pub controllers: [Controller; 2],
    pub prg_rom: Vec<[u8; PRG_BANK_SIZE]>,
    pub chr_8k: Vec<[u8; 8192]>,
    pub bank_select: u8,
    pub chr_banks: [u8; 6],
    pub prg_banks: [u8; 2],
    pub mirroring: NametableMirror,
    pub variant: Namco108Variant,
    pub four_screen: bool,
    pub vram: Vec<u8>,
    pub cpu_ram: Vec<u8>,
    pub palette_ram: Vec<u8>,
}

/// Whether the board splits CHR between the pattern tables (88 and 154).
pub open spec fn is_m88(v: Namco108Variant) -> bool {
    v == Namco108Variant::M88 || v == Namco108Variant::M154
}

/// The power-on CHR registers of each board.
pub open spec fn initial_chr_banks(v: Namco108Variant) -> Seq<u8> {
    if is_m88(v) {
        seq![0u8, 2, 0x44, 0x45, 0x46, 0x47]
    } else if v == Namco108Variant::M76 {
        seq![0u8, 0, 0, 1, 2, 3]
    } else {
        seq![0u8, 2, 4, 5, 6, 7]
    }
}

/// The value bank-data register `reg` (0-5) takes from a write of `value`.
pub open spec fn chr_reg_value(v: Namco108Variant, reg: int, value: u8) -> u8 {
    if is_m88(v) {
        let w = if reg < 2 { value & 0x3F } else { (value & 0x3F) | 0x40 };
        if reg < 2 { w & 0xFE } else { w }
    } else {
        if reg < 2 { value & 0x3E } else { value & 0x3F }
    }
}

impl Namco108Mapper {
    pub open spec fn wf(&self) -> bool {
        &&& self.cpu_ram@.len() == CPU_RAM_SIZE
        &&& self.vram@.len() == (if self.four_screen { FOUR_SCREEN_VRAM_SIZE } else { VRAM_SIZE })
        &&& self.palette_ram@.len() == PALETTE_SIZE
        &&& 8 * self.chr_8k@.len() <= usize::MAX
    }

    pub open spec fn spec_prg_bank_at(&self, addr: u16) -> int {
        let len = self.prg_rom@.len() as int;
        let m: int = if len == 0 { 1 } else { len };
        if addr <= 0x9FFF {
            self.prg_banks@[0] as int % m
        } else if addr <= 0xBFFF {
            self.prg_banks@[1] as int % m
        } else if addr <= 0xDFFF {
            sat_sub(len, 2)
        } else {
            sat_sub(len, 1)
        }
    }

    pub open spec fn spec_cpu_read(&self, addr: u16) -> u8 {
        if addr <= 0x1FFF {
            self.cpu_ram@[(addr as int) % 0x800]
        } else if addr >= 0x8000 {
            let bank = self.spec_prg_bank_at(addr);
            if bank < self.prg_rom@.len() { self.prg_rom@[bank][(addr as int) % 0x2000] } else { 0 }
        } else {
            0
        }
    }

    /// The 1KB CHR page shown at a pattern-table address.
    pub open spec fn spec_chr_index(&self, addr: u16) -> int {
        let slot = ((addr as int) / 1024) % 8;
        let cb = self.chr_banks@;
        let raw: int = if self.variant == Namco108Variant::M76 {
            cb[2 + slot / 2] as int * 2 + slot % 2
        } else if slot == 0 {
            cb[0] as int
        } else if slot == 1 {
            cb[0] as int + 1
        } else if slot == 2 {
            cb[1] as int
        } else if slot == 3 {
            cb[1] as int + 1
        } else {
            cb[slot - 2] as int
        };
        let n: int = if self.chr_8k@.len() == 0 { 1 } else { 8 * self.chr_8k@.len() as int };
        raw % n
    }

    /// Offset into nametable RAM of an address in $2000-$3EFF.
    pub open spec fn spec_nt_index(&self, addr: u16) -> int {
        if self.four_screen {
            (addr as int) % 0x1000
        } else if self.variant == Namco108Variant::M95 {
            let reg = if (addr as int) % 0x1000 < 0x800 { self.chr_banks@[0] } else { self.chr_banks@[1] };
            ((reg as int / 32) % 2) * 1024 + (addr as int) % 1024
        } else {
            nt_offset(addr, self.mirroring)
        }
    }

    pub open spec fn spec_ppu_read(&self, addr: u16) -> u8 {
        if addr <= 0x1FFF {
            let idx = self.spec_chr_index(addr);
            if self.chr_8k@.len() == 0 { 0 } else { self.chr_8k@[idx / 8][(idx % 8) * 1024 + (addr as int) % 1024] }
        } else if addr <= 0x3EFF {
            self.vram@[self.spec_nt_index(addr)]
        } else if addr <= 0x3FFF {
            self.palette_ram@[palette_slot(addr)]
        } else {
            0
        }
    }

    /// What `new` builds from its arguments.
    pub open spec fn built_by_new(flags: u8, prg_banks_16k: Vec<[u8; 16384]>, chr_banks_8k: Vec<[u8; 8192]>, variant: Namco108Variant, m: Namco108Mapper) -> bool {
        &&& (m.wf())
        &&& (m.prg_rom@.len() == 2 * prg_banks_16k@.len())
        &&& (forall|i: int| 0 <= i < m.prg_rom@.len() ==> #[trigger] m.prg_rom@[i]@ == prg_banks_16k@[i / 2]@.subrange(
                (i % 2) * 8192,
                (i % 2) * 8192 + 8192,
            ))
        &&& (m.chr_8k@ == chr_banks_8k@)
        &&& (m.bank_select == 0)
        &&& (m.chr_banks@ == initial_chr_banks(variant))
        &&& (m.prg_banks@ == seq![0u8, 1])
        &&& (m.variant == variant)
        &&& (m.four_screen == (flags & 0x08 != 0))
        &&& (m.mirroring == (if flags & 1 != 0 { NametableMirror::Vertical } else { NametableMirror::Horizontal }))
        &&& (m.vram@ == Seq::new(m.vram@.len(), |i: int| 0u8))
        &&& (m.cpu_ram@ == Seq::new(CPU_RAM_SIZE as nat, |i: int| 0u8))
        &&& (m.palette_ram@ == Seq::new(PALETTE_SIZE as nat, |i: int| 0x0Fu8))
    }

    /// Flags 6 bit 3 asks for four-screen nametable RAM, bit 0 for vertical
    /// mirroring.
    pub fn new(flags: u8, prg_banks_16k: Vec<[u8; 16384]>, chr_banks_8k: Vec<[u8; 8192]>, variant: Namco108Variant) -> (m: Namco108Mapper)
        requires
            2 * prg_banks_16k@.len() <= usize::MAX,
            8 * chr_banks_8k@.len() <= usize::MAX,
        ensures
            m.wf(),
            m.prg_rom@.len() == 2 * prg_banks_16k@.len(),
            forall|i: int| 0 <= i < m.prg_rom@.len() ==> #[trigger] m.prg_rom@[i]@ == prg_banks_16k@[i / 2]@.subrange(
                (i % 2) * 8192,
                (i % 2) * 8192 + 8192,
            ),
            m.chr_8k@ == chr_banks_8k@,
            m.bank_select == 0,
            m.chr_banks@ == initial_chr_banks(variant),
            m.prg_banks@ == seq![0u8, 1],
            m.variant == variant,
            m.four_screen == (flags & 0x08 != 0),
            m.mirroring == (if flags & 1 != 0 { NametableMirror::Vertical } else { NametableMirror::Horizontal }),
            m.vram@ == Seq::new(m.vram@.len(), |i: int| 0u8),
            m.cpu_ram@ == Seq::new(CPU_RAM_SIZE as nat, |i: int| 0u8),
            m.palette_ram@ == Seq::new(PALETTE_SIZE as nat, |i: int| 0x0Fu8),
            Self::built_by_new(flags, prg_banks_16k, chr_banks_8k, variant, m),
    {
        let prg_rom = split_16k_to_8k(&prg_banks_16k);
        let four_screen = flags & 0x08 != 0;
        let mirroring = if flags & 1 != 0 { NametableMirror::Vertical } else { NametableMirror::Horizontal };
        let vram_size = if four_screen { FOUR_SCREEN_VRAM_SIZE } else { VRAM_SIZE };
        let chr_banks: [u8; 6] = match variant {
            Namco108Variant::M88 | Namco108Variant::M154 => [0, 2, 0x44, 0x45, 0x46, 0x47],
            Namco108Variant::M76 => [0, 0, 0, 1, 2, 3],
            _ => [0, 2, 4, 5, 6, 7],
        };
        let m = Namco108Mapper {
            controllers: new_controllers(),
            prg_rom,
            chr_8k: chr_banks_8k,
            bank_select: 0,
            chr_banks,
            prg_banks: [0, 1],
            mirroring,
            variant,
            four_screen,
            vram: zeroed(vram_size),
            cpu_ram: zeroed(CPU_RAM_SIZE),
            palette_ram: filled(PALETTE_SIZE, 0x0F),
        };
        assert(m.chr_banks@ == initial_chr_banks(variant));
        assert(m.prg_banks@ == seq![0u8, 1]);
        m
    }

    fn is_mapper88_chr(&self) -> (r: bool)
        ensures
            r == is_m88(self.variant),
    {
        self.variant == Namco108Variant::M88 || self.variant == Namco108Variant::M154
    }

    fn chr_1k_index(&self, addr: u16) -> (r: usize)
        requires
            self.wf(),
        ensures
            r as int == self.spec_chr_index(addr),
            self.chr_8k@.len() > 0 ==> r < 8 * self.chr_8k@.len(),
    {
        let slot = ((addr / 1024) % 8) as usize;
        let raw: usize = if self.variant == Namco108Variant::M76 {
            self.chr_banks[2 + slot / 2] as usize * 2 + slot % 2
        } else if slot == 0 {
            self.chr_banks[0] as usize
        } else if slot == 1 {
            self.chr_banks[0] as usize + 1
        } else if slot == 2 {
            self.chr_banks[1] as usize
        } else if slot == 3 {
            self.chr_banks[1] as usize + 1
        } else {
            self.chr_banks[slot - 2] as usize
        };
        let n = if self.chr_8k.len() == 0 { 1 } else { 8 * self.chr_8k.len() };
        raw % n
    }

    fn nt_addr(&self, addr: u16) -> (r: usize)
        requires
            self.wf(),
        ensures
            r as int == self.spec_nt_index(addr),
            r < self.vram@.len(),
    {
        if self.four_screen {
            (addr % 0x1000) as usize
        } else if self.variant == Namco108Variant::M95 {
            let reg = if addr % 0x1000 < 0x800 { self.chr_banks[0] } else { self.chr_banks[1] };
            let page = ((reg / 32) % 2) as usize;
            page * 1024 + (addr % 1024) as usize
        } else {
            mirror_nametable_addr(addr, self.mirroring) as usize
        }
    }

    pub fn cpu_peek(&self, addr: u16) -> (r: u8)
        requires
            self.wf(),
        ensures
            r == self.spec_cpu_read(addr),
    {
        if addr <= 0x1FFF {
            return self.cpu_ram[(addr % 0x800) as usize];
        }
        if addr < 0x8000 {
            return 0;
        }
        let len = self.prg_rom.len();
        let m = if len == 0 { 1 } else { len };
        let bank: usize = if addr <= 0x9FFF {
            self.prg_banks[0] as usize % m
        } else if addr <= 0xBFFF {
            self.prg_banks[1] as usize % m
        } else if addr <= 0xDFFF {
            len.saturating_sub(2)
        } else {
            len.saturating_sub(1)
        };
        if bank < len {
            self.prg_rom[bank][(addr % 0x2000) as usize]
        } else {
            0
        }
    }

    pub fn cpu_read(&self, addr: u16) -> (r: u8)
        requires
            self.wf(),
        ensures
            r == self.spec_cpu_read(addr),
    {
        self.cpu_peek(addr)
    }

    /// Board 154 takes its single-screen page from bit 6 of any write to
    /// $8000-$FFFF. In $8000-$9FFF, even addresses select a register and odd
    /// ones write it: 0-1 are 2KB CHR banks, 2-5 1KB CHR banks, 6-7 PRG banks.
    pub fn cpu_write(&mut self, addr: u16, value: u8)
        requires
            old(self).wf(),
        ensures
            final(self).wf(),
            addr <= 0x1FFF ==> final(self).cpu_ram@ == old(self).cpu_ram@.update((addr as int) % 0x800, value),
            addr > 0x1FFF ==> final(self).cpu_ram == old(self).cpu_ram,
            final(self).mirroring == (if addr >= 0x8000 && old(self).variant == Namco108Variant::M154 {
                if value & 0x40 != 0 { NametableMirror::Higher } else { NametableMirror::Lower }
            } else {
                old(self).mirroring
            }),
            final(self).bank_select == (if 0x8000 <= addr <= 0x9FFF && addr % 2 == 0 {
                value & 0x07
            } else {
                old(self).bank_select
            }),
            ({
                let reg = old(self).bank_select as int;
                let data = 0x8000 <= addr <= 0x9FFF && addr % 2 == 1;
                &&& data && reg < 6 ==> final(self).chr_banks@ == old(self).chr_banks@.update(
                    reg, chr_reg_value(old(self).variant, reg, value))
                &&& !(data && reg < 6) ==> final(self).chr_banks == old(self).chr_banks
                &&& data && 6 <= reg <= 7 ==> final(self).prg_banks@ == old(self).prg_banks@.update(reg - 6, value & 0x0F)
                &&& !(data && 6 <= reg <= 7) ==> final(self).prg_banks == old(self).prg_banks
            }),
            final(self).prg_rom == old(self).prg_rom,
            final(self).chr_8k == old(self).chr_8k,
            final(self).variant == old(self).variant,
            final(self).four_screen == old(self).four_screen,
            final(self).vram == old(self).vram,
            final(self).palette_ram == old(self).palette_ram,
            final(self).controllers == old(self).controllers,
    {
        if addr <= 0x1FFF {
            self.cpu_ram.set((addr % 0x800) as usize, value);
            return;
        }
        if addr < 0x8000 {
            return;
        }
        if self.variant == Namco108Variant::M154 {
            self.mirroring = if value & 0x40 != 0 {
                NametableMirror::Higher
            } else {
                NametableMirror::Lower
            };
        }
        if addr > 0x9FFF {
            return;
        }
        if addr % 2 == 0 {
            self.bank_select = value & 0x07;
        } else {
            let reg = self.bank_select as usize;
            let is_m88 = self.is_mapper88_chr();
            let v = if is_m88 {
                if reg < 2 { value & 0x3F } else { (value & 0x3F) | 0x40 }
            } else {
                value
            };
            if reg < 2 {
                self.chr_banks[reg] = if is_m88 { v & 0xFE } else { v & 0x3E };
            } else if reg < 6 {
                self.chr_banks[reg] = if is_m88 { v } else { v & 0x3F };
            } else if reg < 8 {
                self.prg_banks[reg - 6] = value & 0x0F;
            }
        }
    }

    pub fn ppu_read(&self, addr: u16) -> (r: u8)
        requires
            self.wf(),
        ensures
            r == self.spec_ppu_read(addr),
    {
        if addr <= 0x1FFF {
            if self.chr_8k.len() == 0 {
                return 0;
            }
            let idx = self.chr_1k_index(addr);
            self.chr_8k[idx / 8][(idx % 8) * 1024 + (addr % 1024) as usize]
        } else if addr <= 0x3EFF {
            self.vram[self.nt_addr(addr)]
        } else if addr <= 0x3FFF {
            self.palette_ram[palette_index(addr)]
        } else {
            0
        }
    }

    /// Nametable and palette writes; the pattern tables are ROM.
    pub fn ppu_write(&mut self, addr: u16, value: u8)
        requires
            old(self).wf(),
        ensures
            final(self).wf(),
            0x2000 <= addr <= 0x3EFF ==> final(self).vram@ == old(self).vram@.update(old(self).spec_nt_index(addr), value),
            !(0x2000 <= addr <= 0x3EFF) ==> final(self).vram == old(self).vram,
            0x3F00 <= addr <= 0x3FFF ==> final(self).palette_ram@ == old(self).palette_ram@.update(palette_slot(addr), value),
            !(0x3F00 <= addr <= 0x3FFF) ==> final(self).palette_ram == old(self).palette_ram,
            final(self).cpu_ram == old(self).cpu_ram,
            final(self).bank_select == old(self).bank_select,
            final(self).chr_banks == old(self).chr_banks,
            final(self).prg_banks == old(self).prg_banks,
            final(self).mirroring == old(self).mirroring,
            final(self).variant == old(self).variant,
            final(self).four_screen == old(self).four_screen,
            final(self).prg_rom == old(self).prg_rom,
            final(self).chr_8k == old(self).chr_8k,
    {
        if 0x2000 <= addr && addr <= 0x3EFF {
            let i = self.nt_addr(addr);
            self.vram.set(i, value);
        } else if 0x3F00 <= addr && addr <= 0x3FFF {
            let i = palette_index(addr);
            self.palette_ram.set(i, value);
        }
    }

    pub fn code_start(&self) -> (r: u16)
        requires
            self.wf(),
        ensures
            r == word(self.spec_cpu_read(RESET_TARGET_ADDR), self.spec_cpu_read(0xFFFD)),
    {
        make_word(self.cpu_peek(RESET_TARGET_ADDR), self.cpu_peek(RESET_TARGET_ADDR + 1))
    }

    pub fn poll_irq(&self) -> (r: bool)
        ensures
            !r,
    {
        false
    }

    /// The iNES mapper number of the board.
    pub fn mapper_id(&self) -> (r: u8)
        ensures
            r == (match self.variant {
                Namco108Variant::M206 => 206u8,
                Namco108Variant::M88 => 88u8,
                Namco108Variant::M76 => 76u8,
                Namco108Variant::M95 => 95u8,
                Namco108Variant::M154 => 154u8,
            }),
    {
        match self.variant {
            Namco108Variant::M206 => 206,
            Namco108Variant::M88 => 88,
            Namco108Variant::M76 => 76,
            Namco108Variant::M95 => 95,
            Namco108Variant::M154 => 154,
        }
    }
}

impl Namco108Mapper {
    /// The bytes `save_state` appends.
    pub open spec fn state_bytes(&self) -> Seq<u8> {
        self.cpu_ram@
            + self.vram@
            + self.palette_ram@
            + self.chr_banks@
            + self.prg_banks@
            + enc_u8(self.bank_select)
            + enc_u8(mirror_code(self.mirroring))
            + controllers_bytes(self.controllers)
    }

    /// Length of the saved state.
    pub open spec fn state_len(&self) -> nat {
        (CPU_RAM_SIZE + self.vram@.len() + PALETTE_SIZE + 2 * CONTROLLER_STATE_LEN + 10) as nat
    }

    /// Every register that the state stores in fewer bits than it is held in
    /// fits in those bits.
    pub open spec fn fits(&self) -> bool {
        true
    }

    /// The stored bytes at `p` hold a state that this cartridge can take.
    pub open spec fn state_valid(&self, d: Seq<u8>, p: int) -> bool {
        &&& mirror_from_code(d[(p + CPU_RAM_SIZE + self.vram@.len() + PALETTE_SIZE + 9)]) is Some
    }

    /// What `load_state` answers for the bytes at `p`.
    pub open spec fn load_outcome(&self, d: Seq<u8>, p: int) -> Result<(), StateError> {
        if p + self.state_len() > d.len() {
            Err(StateError::UnexpectedEof)
        } else if !self.state_valid(d, p) {
            Err(StateError::InvalidValue)
        } else {
            Ok(())
        }
    }

    /// Every saved field holds what the bytes at `p` store.
    pub open spec fn loaded_from(&self, d: Seq<u8>, p: int) -> bool {
        &&& self.cpu_ram@ == d.subrange(p, p + CPU_RAM_SIZE)
        &&& self.vram@ == d.subrange((p + CPU_RAM_SIZE), (p + CPU_RAM_SIZE) + self.vram@.len())
        &&& self.palette_ram@ == d.subrange((p + CPU_RAM_SIZE + self.vram@.len()), (p + CPU_RAM_SIZE + self.vram@.len()) + PALETTE_SIZE)
        &&& self.chr_banks@ == d.subrange((p + CPU_RAM_SIZE + self.vram@.len() + PALETTE_SIZE), (p + CPU_RAM_SIZE + self.vram@.len() + PALETTE_SIZE) + 6)
        &&& self.prg_banks@ == d.subrange((p + CPU_RAM_SIZE + self.vram@.len() + PALETTE_SIZE + 6), (p + CPU_RAM_SIZE + self.vram@.len() + PALETTE_SIZE + 6) + 2)
        &&& self.bank_select == d[(p + CPU_RAM_SIZE + self.vram@.len() + PALETTE_SIZE + 8)]
        &&& self.mirroring == mirror_from_code(d[(p + CPU_RAM_SIZE + self.vram@.len() + PALETTE_SIZE + 9)])->0
        &&& self.controllers@[0] == controller_at(d, (p + CPU_RAM_SIZE + self.vram@.len() + PALETTE_SIZE + 10))
        &&& self.controllers@[1] == controller_at(d, (p + CPU_RAM_SIZE + self.vram@.len() + PALETTE_SIZE + 10) + CONTROLLER_STATE_LEN)
    }

    /// The two agree on every saved field.
    pub open spec fn same_state(&self, other: &Self) -> bool {
        &&& self.cpu_ram@ == other.cpu_ram@
        &&& self.vram@ == other.vram@
        &&& self.palette_ram@ == other.palette_ram@
        &&& self.chr_banks@ == other.chr_banks@
        &&& self.prg_banks@ == other.prg_banks@
        &&& self.bank_select == other.bank_select
        &&& self.mirroring == other.mirroring
        &&& self.controllers@ == other.controllers@
    }

    /// The two agree on every field that the state does not store.
    pub open spec fn keeps_unsaved(&self, other: &Self) -> bool {
        &&& self.prg_rom == other.prg_rom
        &&& self.chr_8k == other.chr_8k
        &&& self.variant == other.variant
        &&& self.four_screen == other.four_screen
    }

    /// The two come from cartridges of the same shape.
    pub open spec fn same_layout(&self, other: &Self) -> bool {
        &&& self.vram@.len() == other.vram@.len()
    }

    #[verifier::spinoff_prover]
    pub fn save_state(&self, w: &mut SavestateWriter)
        ensures
            final(w).buf@ == old(w).buf@ + self.state_bytes(),
    {
        w.write_bytes(self.cpu_ram.as_slice());
        w.write_bytes(self.vram.as_slice());
        w.write_bytes(self.palette_ram.as_slice());
        w.write_bytes(self.chr_banks.as_slice());
        w.write_bytes(self.prg_banks.as_slice());
        w.write_u8(self.bank_select);
        save_mirroring(w, self.mirroring);
        save_controllers(w, &self.controllers);
        assert(w.buf@ =~= old(w).buf@ + self.state_bytes());
    }

    /// Restores a state written by `save_state`. Nothing changes unless the
    /// whole state is there and holds values this cartridge can take.
    #[verifier::spinoff_prover]
    pub fn load_state(&mut self, r: &mut SavestateReader) -> (res: Result<(), StateError>)
        requires
            old(self).wf(),
            old(r).wf(),
        ensures
            final(r).wf(),
            final(r).data@ == old(r).data@,
            res == old(self).load_outcome(old(r).data@, old(r).pos as int),
            res is Err ==> *final(self) == *old(self) && final(r).pos == old(r).pos,
            res is Ok ==> final(self).wf() && final(self).loaded_from(old(r).data@, old(r).pos as int)
                && final(self).keeps_unsaved(&*old(self)) && final(self).same_layout(&*old(self))
                && final(r).pos == old(r).pos + old(self).state_len(),
    {
        let ghost d = r.data@;
        let ghost p = r.pos as int;
        let start = r.pos;
        if r.remaining_len() < CPU_RAM_SIZE + self.vram.len() + PALETTE_SIZE + 2 * CONTROLLER_STATE_LEN + 10 {
            return Err(StateError::UnexpectedEof);
        }
        let cpu_ram = r.take_bytes(CPU_RAM_SIZE);
        let vram = r.take_bytes(self.vram.len());
        let palette_ram = r.take_bytes(PALETTE_SIZE);
        let chr_banks_bytes = r.take_bytes(6);
        let mut chr_banks = self.chr_banks;
        copy_into_array(&mut chr_banks, &chr_banks_bytes);
        let prg_banks_bytes = r.take_bytes(2);
        let mut prg_banks = self.prg_banks;
        copy_into_array(&mut prg_banks, &prg_banks_bytes);
        let bank_select = r.take_u8();
        let mirroring_code = r.take_u8();
        let controllers = take_controllers(r);
        let mirroring = match mirroring_from_code(mirroring_code) {
            Some(m) => m,
            None => {
                r.rewind(start);
                return Err(StateError::InvalidValue);
            },
        };
        self.cpu_ram = cpu_ram;
        self.vram = vram;
        self.palette_ram = palette_ram;
        self.chr_banks = chr_banks;
        self.prg_banks = prg_banks;
        self.bank_select = bank_select;
        self.mirroring = mirroring;
        self.controllers = controllers;
        Ok(())
    }

    /// Saving a state and loading it into a cartridge of the same shape
    /// succeeds and restores every saved field.
    #[verifier::spinoff_prover]
    pub proof fn lemma_state_roundtrip(o: Self, m: Self, n: Self, d: Seq<u8>, p: int)
        requires
            o.wf(),
            m.wf(),
            m.fits(),
            o.same_layout(&m),
            n.same_layout(&m),
            stored_at(d, p, m.state_bytes()),
        ensures
            o.load_outcome(d, p) == Ok::<(), StateError>(()),
            n.loaded_from(d, p) ==> n.same_state(&m),
    {
        let s0 = m.cpu_ram@;
        let s1 = s0 + m.vram@;
        let s2 = s1 + m.palette_ram@;
        let s3 = s2 + m.chr_banks@;
        let s4 = s3 + m.prg_banks@;
        let s5 = s4 + enc_u8(m.bank_select);
        let s6 = s5 + enc_u8(mirror_code(m.mirroring));
        let s7 = s6 + controllers_bytes(m.controllers);
        lemma_stored_split(d, p, s6, controllers_bytes(m.controllers));
        lemma_stored_split(d, p, s5, enc_u8(mirror_code(m.mirroring)));
        lemma_stored_split(d, p, s4, enc_u8(m.bank_select));
        lemma_stored_split(d, p, s3, m.prg_banks@);
        lemma_stored_split(d, p, s2, m.chr_banks@);
        lemma_stored_split(d, p, s1, m.palette_ram@);
        lemma_stored_split(d, p, s0, m.vram@);
        lemma_stored_u8(d, (p + CPU_RAM_SIZE + m.vram@.len() + PALETTE_SIZE + 8), m.bank_select);
        lemma_stored_u8(d, (p + CPU_RAM_SIZE + m.vram@.len() + PALETTE_SIZE + 9), mirror_code(m.mirroring));
        lemma_mirror_code_roundtrip(m.mirroring);
        lemma_stored_controllers(d, (p + CPU_RAM_SIZE + m.vram@.len() + PALETTE_SIZE + 10), m.controllers);
        if n.loaded_from(d, p) {
            assert(n.controllers@ =~= m.controllers@);
        }
    }
}

} // verus!
