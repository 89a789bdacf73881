//! Konami VRC2 and VRC4 (mappers 21, 22, 23, 25): boards that differ in which
//! address lines select the register within each $1000 block, two 8KB PRG
//! banks with a swap mode on the VRC4, eight 1KB CHR banks written a nibble
//! at a time, and on the VRC4 a scanline/cycle IRQ counter.

use vstd::prelude::*;
use crate::bus::{NametableMirror, CPU_RAM_SIZE, VRAM_SIZE, PALETTE_SIZE, RESET_TARGET_ADDR, nt_offset, mirror_nametable_addr, palette_slot, palette_index, word, make_word};
use crate::ppu_bus::{zeroed, filled};
use crate::controller::Controller;
use crate::mapper::common::{new_controllers, split_16k_to_8k, split_8k_to_1k, ram_with_saved};
use crate::mapper::irem_g101::sat_sub;

use crate::savestate::{SavestateWriter, SavestateReader, StateError, enc_u8, enc_bool, enc_u16, dec_u16_at, stored_at, lemma_add_assoc, lemma_stored_split, lemma_stored_u8, lemma_stored_bool, lemma_stored_u16, copy_into_array, banks_bytes, bank_at, lemma_stored_banks};
use crate::controller::{controllers_bytes, controller_at, save_controllers, take_controllers, lemma_stored_controllers, CONTROLLER_STATE_LEN};
use crate::ppu_bus::{mirror_code, mirror_from_code, mirroring_from_code, save_mirroring, lemma_mirror_code_roundtrip};

verus! {

pub const PRG_BANK_SIZE: usize = 0x2000;
pub const CHR_BANK_SIZE: usize = 0x0400;
pub const PRG_RAM_8K: usize = 0x2000;
/// PPU dots per scanline, the period of the VRC4 prescaler.
pub const PRESCALER_PERIOD: i16 = 341;

/// The board, which fixes the register address lines.
#[derive(Clone, Copy, Debug, PartialEq, Eq, Structural)]
pub enum Variant {
    Vrc2a,
    Vrc2b,
    Vrc2c,
    Vrc4a,
    Vrc4b,
    Vrc4c,
    Vrc4d,
    Vrc4e,
    Vrc4f,
}

pub open spec fn is_vrc2(v: Variant) -> bool {
    v == Variant::Vrc2a || v == Variant::Vrc2b || v == Variant::Vrc2c
}

/// The weights of the address lines wired to the register's A0 and A1.
pub open spec fn reg_lines(v: Variant) -> (int, int) {
    match v {
        Variant::Vrc2a | Variant::Vrc2c | Variant::Vrc4b => (2, 1),
        Variant::Vrc2b | Variant::Vrc4f => (1, 2),
        Variant::Vrc4a => (2, 4),
        Variant::Vrc4c => (64, 128),
        Variant::Vrc4d => (8, 4),
        Variant::Vrc4e => (4, 8),
    }
}

/// The register (0-3) an address selects within its $1000 block.
pub open spec fn spec_decode_reg(v: Variant, addr: u16) -> int {
    let (w0, w1) = reg_lines(v);
    ((addr as int) / w0) % 2 + 2 * (((addr as int) / w1) % 2)
}

/// The board an iNES mapper and submapper number describe.
pub open spec fn spec_resolve_variant(mapper_id: u8, submapper: u8) -> Variant {
    if mapper_id == 22 {
        Variant::Vrc2a
    } else if mapper_id == 23 && submapper == 3 {
        Variant::Vrc2b
    } else if mapper_id == 25 && submapper == 3 {
        Variant::Vrc2c
    } else if mapper_id == 21 && submapper == 2 {
        Variant::Vrc4c
    } else if mapper_id == 21 {
        Variant::Vrc4a
    } else if mapper_id == 25 && submapper == 2 {
        Variant::Vrc4d
    } else if mapper_id == 25 {
        Variant::Vrc4b
    } else if mapper_id == 23 && submapper == 1 {
        Variant::Vrc4f
    } else {
        Variant::Vrc4e
    }
}

pub open spec fn spec_variant_mapper_id(v: Variant) -> u8 {
    match v {
        Variant::Vrc4a | Variant::Vrc4c => 21,
        Variant::Vrc2a => 22,
        Variant::Vrc2b | Variant::Vrc4e | Variant::Vrc4f => 23,
        Variant::Vrc2c | Variant::Vrc4b | Variant::Vrc4d => 25,
    }
}

impl Variant {
    pub fn is_vrc2(self) -> (r: bool)
        ensures
            r == is_vrc2(self),
    {
        match self {
            Variant::Vrc2a | Variant::Vrc2b | Variant::Vrc2c => true,
            _ => false,
        }
    }

    pub fn decode_reg(self, addr: u16) -> (r: u8)
        ensures
            r as int == spec_decode_reg(self, addr),
    {
        let (w0, w1): (u16, u16) = match self {
            Variant::Vrc2a | Variant::Vrc2c | Variant::Vrc4b => (2, 1),
            Variant::Vrc2b | Variant::Vrc4f => (1, 2),
            Variant::Vrc4a => (2, 4),
            Variant::Vrc4c => (64, 128),
            Variant::Vrc4d => (8, 4),
            Variant::Vrc4e => (4, 8),
        };
        ((addr / w0) % 2 + 2 * ((addr / w1) % 2)) as u8
    }

    pub fn mapper_id(self) -> (r: u8)
        ensures
            r == spec_variant_mapper_id(self),
    {
        match self {
            Variant::Vrc4a | Variant::Vrc4c => 21,
            Variant::Vrc2a => 22,
            Variant::Vrc2b | Variant::Vrc4e | Variant::Vrc4f => 23,
            Variant::Vrc2c | Variant::Vrc4b | Variant::Vrc4d => 25,
        }
    }
}

/// Submapper 0 (or an unknown one) picks the board most common for the
/// mapper number.
pub fn resolve_variant(mapper_id: u8, submapper: u8) -> (v: Variant)
    ensures
        v == spec_resolve_variant(mapper_id, submapper),
{
    if mapper_id == 22 {
        Variant::Vrc2a
    } else if mapper_id == 23 && submapper == 3 {
        Variant::Vrc2b
    } else if mapper_id == 25 && submapper == 3 {
        Variant::Vrc2c
    } else if mapper_id == 21 && submapper == 2 {
        Variant::Vrc4c
    } else if mapper_id == 21 {
        Variant::Vrc4a
    } else if mapper_id == 25 && submapper == 2 {
        Variant::Vrc4d
    } else if mapper_id == 25 {
        Variant::Vrc4b
    } else if mapper_id == 23 && submapper == 1 {
        Variant::Vrc4f
    } else {
        Variant::Vrc4e
    }
}

pub struct Vrc2_4Mapper {
    pub controllers: [Controller; 2],
    pub variant: Variant,
    pub prg_rom: Vec<[u8; PRG_BANK_SIZE]>,
    /// 1KB CHR pages: the ROM, or eight pages of RAM when there is none.
    pub chr_rom: Vec<[u8; CHR_BANK_SIZE]>,
    pub chr_is_ram: bool,
    pub prg_ram: Vec<u8>,
    pub has_battery: bool,
    pub prg_bank_0: u8,
    pub prg_bank_1: u8,
    pub prg_swap_mode: bool,
    pub wram_enable: bool,
    pub chr_lo: [u8; 8],
    pub chr_hi: [u8; 8],
    pub mirroring: NametableMirror,
    /// The one-bit latch VRC2 boards show at $6000.
    pub vrc2_latch: u8,
    pub irq_latch: u8,
    pub irq_counter: u8,
    pub irq_prescaler: i16,
    pub irq_mode_cycle: bool,
    pub irq_enable: bool,
    pub irq_enable_after_ack: bool,
    pub irq_pending: bool,
    pub vram: Vec<u8>,
    pub cpu_ram: Vec<u8>,
    pub palette_ram: Vec<u8>,
}

/// The counter and pending flag after one clock.
pub open spec fn clocked(counter: u8, latch: u8, pending: bool) -> (u8, bool) {
    if counter == 0xFF { (latch, true) } else { ((counter + 1) as u8, pending) }
}

/// The VRC4 mirroring of the low two bits of a $9000 write.
pub open spec fn vrc4_mirroring(value: u8) -> NametableMirror {
    let m = value & 3;
    if m == 0 {
        NametableMirror::Vertical
    } else if m == 1 {
        NametableMirror::Horizontal
    } else if m == 2 {
        NametableMirror::Lower
    } else {
        NametableMirror::Higher
    }
}

impl Vrc2_4Mapper {
    pub open spec fn wf(&self) -> bool {
        &&& self.cpu_ram@.len() == CPU_RAM_SIZE
        &&& self.prg_ram@.len() == PRG_RAM_8K
        &&& self.vram@.len() == VRAM_SIZE
        &&& self.palette_ram@.len() == PALETTE_SIZE
        &&& 0 < self.irq_prescaler <= PRESCALER_PERIOD
    }

    pub open spec fn spec_prg_index(&self, bank: u8) -> int {
        let len = self.prg_rom@.len() as int;
        ((bank & 0x1F) as int) % (if len == 0 { 1 } else { len })
    }

    pub open spec fn spec_prg_bank_at(&self, addr: u16) -> int {
        let len = self.prg_rom@.len() as int;
        if addr <= 0x9FFF {
            if self.prg_swap_mode { sat_sub(len, 2) } else { self.spec_prg_index(self.prg_bank_0) }
        } else if addr <= 0xBFFF {
            self.spec_prg_index(self.prg_bank_1)
        } else if addr <= 0xDFFF {
            if self.prg_swap_mode { self.spec_prg_index(self.prg_bank_0) } else { sat_sub(len, 2) }
        } else {
            sat_sub(len, 1)
        }
    }

    pub open spec fn spec_cpu_read(&self, addr: u16) -> u8 {
        if addr <= 0x1FFF {
            self.cpu_ram@[(addr as int) % 0x800]
        } else if 0x6000 <= addr <= 0x7FFF {
            if is_vrc2(self.variant) {
                self.vrc2_latch & 1
            } else if self.wram_enable {
                self.prg_ram@[addr - 0x6000]
            } else {
                0
            }
        } else if addr >= 0x8000 {
            let bank = self.spec_prg_bank_at(addr);
            if bank < self.prg_rom@.len() { self.prg_rom@[bank][(addr as int) % 0x2000] } else { 0 }
        } else {
            0
        }
    }

    /// The 1KB CHR page of a slot: the high and low register nibbles
    /// combined, halved on the VRC2a, wrapped to the CHR size.
    pub open spec fn spec_chr_bank_number(&self, slot: int) -> int {
        let combined = (self.chr_hi@[slot] & 0x1F) as int * 16 + (self.chr_lo@[slot] & 0x0F) as int;
        let v = if self.variant == Variant::Vrc2a { combined / 2 } else { combined };
        let n = self.chr_rom@.len() as int;
        v % (if n == 0 { 1 } else { n })
    }

    pub open spec fn spec_ppu_read(&self, addr: u16) -> u8 {
        if addr <= 0x1FFF {
            let b = self.spec_chr_bank_number(((addr as int) / 1024) % 8);
            if b < self.chr_rom@.len() { self.chr_rom@[b][(addr as int) % 1024] } else { 0 }
        } else if addr <= 0x3EFF {
            self.vram@[nt_offset(addr, self.mirroring)]
        } else if addr <= 0x3FFF {
            self.palette_ram@[palette_slot(addr)]
        } else {
            0
        }
    }

    /// What `new` builds from its arguments.
    pub open spec fn built_by_new(flags: u8, prg_banks_16k: Vec<[u8; 16384]>, chr_banks_8k: Vec<[u8; 8192]>, has_battery: bool, sram_data: Option<Vec<u8>>, variant: u8, submapper: u8, m: Vrc2_4Mapper) -> bool {
        &&& (m.wf())
        &&& (m.variant == spec_resolve_variant(variant, submapper))
        &&& (m.prg_rom@.len() == 2 * prg_banks_16k@.len())
        &&& (forall|i: int| 0 <= i < m.prg_rom@.len() ==> #[trigger] m.prg_rom@[i]@ == prg_banks_16k@[i / 2]@.subrange(
                (i % 2) * 8192,
                (i % 2) * 8192 + 8192,
            ))
        &&& (m.chr_is_ram == (chr_banks_8k@.len() == 0))
        &&& (m.chr_is_ram ==> m.chr_rom@.len() == 8 && forall|i: int, j: int| 0 <= i < 8 && 0 <= j < 1024 ==> #[trigger] m.chr_rom@[i][j] == 0)
        &&& (!m.chr_is_ram ==> m.chr_rom@.len() == 8 * chr_banks_8k@.len() && forall|i: int| 0 <= i < m.chr_rom@.len() ==> #[trigger] m.chr_rom@[i]@ == chr_banks_8k@[i / 8]@.subrange(
                (i % 8) * 1024,
                (i % 8) * 1024 + 1024,
            ))
        &&& (forall|i: int| 0 <= i < PRG_RAM_8K ==> #[trigger] m.prg_ram@[i] == (match sram_data {
                Some(d) => if i < d@.len() { d@[i] } else { 0u8 },
                None => 0u8,
            }))
        &&& (m.has_battery == has_battery)
        &&& (m.prg_bank_0 == 0 && m.prg_bank_1 == 0 && !m.prg_swap_mode && !m.wram_enable)
        &&& (forall|i: int| 0 <= i < 8 ==> m.chr_lo@[i] == 0 && m.chr_hi@[i] == 0)
        &&& (m.mirroring == (if flags & 1 != 0 { NametableMirror::Vertical } else { NametableMirror::Horizontal }))
        &&& (m.vrc2_latch == 0 && m.irq_latch == 0 && m.irq_counter == 0)
        &&& (m.irq_prescaler == PRESCALER_PERIOD)
        &&& (!m.irq_mode_cycle && !m.irq_enable && !m.irq_enable_after_ack && !m.irq_pending)
        &&& (m.vram@ == Seq::new(VRAM_SIZE as nat, |i: int| 0u8))
        &&& (m.cpu_ram@ == Seq::new(CPU_RAM_SIZE as nat, |i: int| 0u8))
        &&& (m.palette_ram@ == Seq::new(PALETTE_SIZE as nat, |i: int| 0x0Fu8))
    }

    /// `variant` is the iNES mapper number. Without CHR ROM the board gets
    /// 8KB of CHR RAM. PRG RAM is filled from the saved data.
    pub fn new(flags: u8, prg_banks_16k: Vec<[u8; 16384]>, chr_banks_8k: Vec<[u8; 8192]>, has_battery: bool, sram_data: Option<Vec<u8>>, variant: u8, submapper: u8) -> (m: Vrc2_4Mapper)
        requires
            2 * prg_banks_16k@.len() <= usize::MAX,
            8 * chr_banks_8k@.len() <= usize::MAX,
        ensures
            m.wf(),
            m.variant == spec_resolve_variant(variant, submapper),
            m.prg_rom@.len() == 2 * prg_banks_16k@.len(),
            forall|i: int| 0 <= i < m.prg_rom@.len() ==> #[trigger] m.prg_rom@[i]@ == prg_banks_16k@[i / 2]@.subrange(
                (i % 2) * 8192,
                (i % 2) * 8192 + 8192,
            ),
            m.chr_is_ram == (chr_banks_8k@.len() == 0),
            m.chr_is_ram ==> m.chr_rom@.len() == 8 && forall|i: int, j: int| 0 <= i < 8 && 0 <= j < 1024 ==> #[trigger] m.chr_rom@[i][j] == 0,
            !m.chr_is_ram ==> m.chr_rom@.len() == 8 * chr_banks_8k@.len() && forall|i: int| 0 <= i < m.chr_rom@.len() ==> #[trigger] m.chr_rom@[i]@ == chr_banks_8k@[i / 8]@.subrange(
                (i % 8) * 1024,
                (i % 8) * 1024 + 1024,
            ),
            forall|i: int| 0 <= i < PRG_RAM_8K ==> #[trigger] m.prg_ram@[i] == (match sram_data {
                Some(d) => if i < d@.len() { d@[i] } else { 0u8 },
                None => 0u8,
            }),
            m.has_battery == has_battery,
            m.prg_bank_0 == 0 && m.prg_bank_1 == 0 && !m.prg_swap_mode && !m.wram_enable,
            forall|i: int| 0 <= i < 8 ==> m.chr_lo@[i] == 0 && m.chr_hi@[i] == 0,
            m.mirroring == (if flags & 1 != 0 { NametableMirror::Vertical } else { NametableMirror::Horizontal }),
            m.vrc2_latch == 0 && m.irq_latch == 0 && m.irq_counter == 0,
            m.irq_prescaler == PRESCALER_PERIOD,
            !m.irq_mode_cycle && !m.irq_enable && !m.irq_enable_after_ack && !m.irq_pending,
            m.vram@ == Seq::new(VRAM_SIZE as nat, |i: int| 0u8),
            m.cpu_ram@ == Seq::new(CPU_RAM_SIZE as nat, |i: int| 0u8),
            m.palette_ram@ == Seq::new(PALETTE_SIZE as nat, |i: int| 0x0Fu8),
            Self::built_by_new(flags, prg_banks_16k, chr_banks_8k, has_battery, sram_data, variant, submapper, m),
    {
        let prg_rom = split_16k_to_8k(&prg_banks_16k);
        let chr_is_ram = chr_banks_8k.len() == 0;
        let chr_rom = if chr_is_ram {
            let blank: Vec<[u8; 8192]> = vec![[0u8; 8192]];
            let r = split_8k_to_1k(&blank);
            assert forall|i: int, j: int| 0 <= i < 8 && 0 <= j < 1024 implies #[trigger] r@[i][j] == 0 by {
                assert(r@[i]@ == blank@[i / 8]@.subrange((i % 8) * 1024, (i % 8) * 1024 + 1024));
            }
            r
        } else {
            split_8k_to_1k(&chr_banks_8k)
        };
        let prg_ram = ram_with_saved(PRG_RAM_8K, &sram_data);
        Vrc2_4Mapper {
            controllers: new_controllers(),
            variant: resolve_variant(variant, submapper),
            prg_rom,
            chr_rom,
            chr_is_ram,
            prg_ram,
            has_battery,
            prg_bank_0: 0,
            prg_bank_1: 0,
            prg_swap_mode: false,
            wram_enable: false,
            chr_lo: [0; 8],
            chr_hi: [0; 8],
            mirroring: if flags & 1 != 0 { NametableMirror::Vertical } else { NametableMirror::Horizontal },
            vrc2_latch: 0,
            irq_latch: 0,
            irq_counter: 0,
            irq_prescaler: PRESCALER_PERIOD,
            irq_mode_cycle: false,
            irq_enable: false,
            irq_enable_after_ack: false,
            irq_pending: false,
            vram: zeroed(VRAM_SIZE),
            cpu_ram: zeroed(CPU_RAM_SIZE),
            palette_ram: filled(PALETTE_SIZE, 0x0F),
        }
    }

    fn prg_index(&self, bank: u8) -> (r: usize)
        ensures
            r as int == self.spec_prg_index(bank),
    {
        let len = if self.prg_rom.len() == 0 { 1 } else { self.prg_rom.len() };
        ((bank & 0x1F) as usize) % len
    }

    /// The 1KB CHR page shown in a slot.
    pub fn chr_bank_number(&self, slot: usize) -> (r: usize)
        requires
            slot < 8,
        ensures
            r as int == self.spec_chr_bank_number(slot as int),
            self.chr_rom@.len() > 0 ==> r < self.chr_rom@.len(),
    {
        let combined = ((self.chr_hi[slot] & 0x1F) as usize) * 16 + (self.chr_lo[slot] & 0x0F) as usize;
        let v = if self.variant == Variant::Vrc2a { combined / 2 } else { combined };
        let n = if self.chr_rom.len() == 0 { 1 } else { self.chr_rom.len() };
        v % n
    }

    fn clock_irq_counter(&mut self)
        ensures
            (final(self).irq_counter, final(self).irq_pending) == clocked(old(self).irq_counter, old(self).irq_latch, old(self).irq_pending),
            final(self).irq_latch == old(self).irq_latch,
            final(self).irq_prescaler == old(self).irq_prescaler,
            final(self).irq_enable == old(self).irq_enable,
            final(self).irq_mode_cycle == old(self).irq_mode_cycle,
            final(self).irq_enable_after_ack == old(self).irq_enable_after_ack,
            final(self).variant == old(self).variant,
            final(self).prg_bank_0 == old(self).prg_bank_0,
            final(self).prg_bank_1 == old(self).prg_bank_1,
            final(self).prg_swap_mode == old(self).prg_swap_mode,
            final(self).wram_enable == old(self).wram_enable,
            final(self).chr_lo == old(self).chr_lo,
            final(self).chr_hi == old(self).chr_hi,
            final(self).mirroring == old(self).mirroring,
            final(self).vrc2_latch == old(self).vrc2_latch,
            final(self).chr_rom == old(self).chr_rom,
            final(self).prg_rom == old(self).prg_rom,
            final(self).prg_ram == old(self).prg_ram,
            final(self).cpu_ram == old(self).cpu_ram,
            final(self).vram == old(self).vram,
            final(self).palette_ram == old(self).palette_ram,
            final(self).controllers == old(self).controllers,
    {
        if self.irq_counter == 0xFF {
            self.irq_counter = self.irq_latch;
            self.irq_pending = true;
        } else {
            self.irq_counter = self.irq_counter + 1;
        }
    }

    /// A write to $8000-$FFFF: $8000/$A000 PRG banks; $9000 mirroring (and
    /// on the VRC4, registers 2-3: swap mode and RAM enable); $B000-$E000
    /// the CHR nibbles; $F000 (VRC4) IRQ latch nibbles, control, acknowledge.
    #[verifier::rlimit(100)]
    fn handle_write(&mut self, addr: u16, value: u8)
        requires
            old(self).wf(),
            addr >= 0x8000,
        ensures
            final(self).wf(),
            ({
                let block = (addr as int) / 0x1000;
                let reg = spec_decode_reg(old(self).variant, addr);
                let vrc2 = is_vrc2(old(self).variant);
                let slot = (block - 0xB) * 2 + reg / 2;
                &&& final(self).prg_bank_0 == (if block == 8 { value & 0x1F } else { old(self).prg_bank_0 })
                &&& final(self).prg_bank_1 == (if block == 0xA { value & 0x1F } else { old(self).prg_bank_1 })
                &&& final(self).mirroring == (if block == 9 && reg < 2 {
                    if vrc2 {
                        if value & 1 != 0 { NametableMirror::Horizontal } else { NametableMirror::Vertical }
                    } else {
                        vrc4_mirroring(value)
                    }
                } else {
                    old(self).mirroring
                })
                &&& final(self).prg_swap_mode == (if block == 9 && reg >= 2 && !vrc2 { value & 2 != 0 } else { old(self).prg_swap_mode })
                &&& final(self).wram_enable == (if block == 9 && reg >= 2 && !vrc2 { value & 1 != 0 } else { old(self).wram_enable })
                &&& 0xB <= block <= 0xE && reg % 2 == 0 ==> final(self).chr_lo@ == old(self).chr_lo@.update(slot, value & 0x0F)
                    && final(self).chr_hi == old(self).chr_hi
                &&& 0xB <= block <= 0xE && reg % 2 == 1 ==> final(self).chr_hi@ == old(self).chr_hi@.update(slot, value & 0x1F)
                    && final(self).chr_lo == old(self).chr_lo
                &&& !(0xB <= block <= 0xE) ==> final(self).chr_lo == old(self).chr_lo && final(self).chr_hi == old(self).chr_hi
                &&& final(self).irq_latch == (if block == 0xF && !vrc2 && reg == 0 {
                    (old(self).irq_latch & 0xF0) | (value & 0x0F)
                } else if block == 0xF && !vrc2 && reg == 1 {
                    (old(self).irq_latch & 0x0F) | ((value & 0x0F) << 4u8)
                } else {
                    old(self).irq_latch
                })
                &&& block == 0xF && !vrc2 && reg == 2 ==> {
                    &&& !final(self).irq_pending
                    &&& final(self).irq_enable_after_ack == (value & 1 != 0)
                    &&& final(self).irq_enable == (value & 2 != 0)
                    &&& final(self).irq_mode_cycle == (value & 4 != 0)
                    &&& final(self).irq_counter == (if value & 2 != 0 { old(self).irq_latch } else { old(self).irq_counter })
                    &&& final(self).irq_prescaler == (if value & 2 != 0 { PRESCALER_PERIOD } else { old(self).irq_prescaler })
                }
                &&& block == 0xF && !vrc2 && reg == 3 ==> {
                    &&& !final(self).irq_pending
                    &&& final(self).irq_enable == old(self).irq_enable_after_ack
                    &&& final(self).irq_enable_after_ack == old(self).irq_enable_after_ack
                    &&& final(self).irq_mode_cycle == old(self).irq_mode_cycle
                    &&& final(self).irq_counter == old(self).irq_counter
                    &&& final(self).irq_prescaler == old(self).irq_prescaler
                }
                &&& !(block == 0xF && !vrc2 && reg >= 2) ==> {
                    &&& final(self).irq_pending == old(self).irq_pending
                    &&& final(self).irq_enable == old(self).irq_enable
                    &&& final(self).irq_enable_after_ack == old(self).irq_enable_after_ack
                    &&& final(self).irq_mode_cycle == old(self).irq_mode_cycle
                    &&& final(self).irq_counter == old(self).irq_counter
                    &&& final(self).irq_prescaler == old(self).irq_prescaler
                }
            }),
            final(self).variant == old(self).variant,
            final(self).vrc2_latch == old(self).vrc2_latch,
            final(self).chr_rom == old(self).chr_rom,
            final(self).chr_is_ram == old(self).chr_is_ram,
            final(self).prg_rom == old(self).prg_rom,
            final(self).prg_ram == old(self).prg_ram,
            final(self).has_battery == old(self).has_battery,
            final(self).cpu_ram == old(self).cpu_ram,
            final(self).vram == old(self).vram,
            final(self).palette_ram == old(self).palette_ram,
            final(self).controllers == old(self).controllers,
    {
        let block = addr / 0x1000;
        let reg = self.variant.decode_reg(addr);
        let vrc2 = self.variant.is_vrc2();
        if block == 8 {
            self.prg_bank_0 = value & 0x1F;
        } else if block == 0xA {
            self.prg_bank_1 = value & 0x1F;
        } else if block == 9 {
            self.write_control(reg, value);
        } else if 0xB <= block && block <= 0xE {
            let slot = ((block - 0xB) * 2) as usize + (reg / 2) as usize;
            if reg % 2 == 0 {
                self.chr_lo[slot] = value & 0x0F;
            } else {
                self.chr_hi[slot] = value & 0x1F;
            }
        } else if block == 0xF && !vrc2 {
            self.write_irq(reg, value);
        }
    }

    /// $9000: mirroring for registers 0-1; on the VRC4 registers 2-3 set the
    /// PRG swap mode and the RAM enable.
    fn write_control(&mut self, reg: u8, value: u8)
        requires
            old(self).wf(),
            reg < 4,
        ensures
            final(self).wf(),
            final(self).mirroring == (if reg < 2 {
                if is_vrc2(old(self).variant) {
                    if value & 1 != 0 { NametableMirror::Horizontal } else { NametableMirror::Vertical }
                } else {
                    vrc4_mirroring(value)
                }
            } else {
                old(self).mirroring
            }),
            final(self).prg_swap_mode == (if reg >= 2 && !is_vrc2(old(self).variant) { value & 2 != 0 } else { old(self).prg_swap_mode }),
            final(self).wram_enable == (if reg >= 2 && !is_vrc2(old(self).variant) { value & 1 != 0 } else { old(self).wram_enable }),
            *final(self) == (Vrc2_4Mapper {
                mirroring: final(self).mirroring,
                prg_swap_mode: final(self).prg_swap_mode,
                wram_enable: final(self).wram_enable,
                ..*old(self)
            }),
    {
        if reg < 2 {
            if self.variant.is_vrc2() {
                self.mirroring = if value & 1 != 0 { NametableMirror::Horizontal } else { NametableMirror::Vertical };
            } else {
                let m = value & 3;
                self.mirroring = if m == 0 {
                    NametableMirror::Vertical
                } else if m == 1 {
                    NametableMirror::Horizontal
                } else if m == 2 {
                    NametableMirror::Lower
                } else {
                    NametableMirror::Higher
                };
            }
        } else if !self.variant.is_vrc2() {
            self.prg_swap_mode = (value & 0x02) != 0;
            self.wram_enable = (value & 0x01) != 0;
        }
    }

    /// $F000 on the VRC4: latch low and high nibble, control (which reloads
    /// the counter and prescaler when it enables), acknowledge.
    fn write_irq(&mut self, reg: u8, value: u8)
        requires
            old(self).wf(),
            reg < 4,
        ensures
            final(self).wf(),
            final(self).irq_latch == (if reg == 0 {
                (old(self).irq_latch & 0xF0) | (value & 0x0F)
            } else if reg == 1 {
                (old(self).irq_latch & 0x0F) | ((value & 0x0F) << 4u8)
            } else {
                old(self).irq_latch
            }),
            reg == 2 ==> {
                &&& !final(self).irq_pending
                &&& final(self).irq_enable_after_ack == (value & 1 != 0)
                &&& final(self).irq_enable == (value & 2 != 0)
                &&& final(self).irq_mode_cycle == (value & 4 != 0)
                &&& final(self).irq_counter == (if value & 2 != 0 { old(self).irq_latch } else { old(self).irq_counter })
                &&& final(self).irq_prescaler == (if value & 2 != 0 { PRESCALER_PERIOD } else { old(self).irq_prescaler })
            },
            reg == 3 ==> {
                &&& !final(self).irq_pending
                &&& final(self).irq_enable == old(self).irq_enable_after_ack
                &&& final(self).irq_enable_after_ack == old(self).irq_enable_after_ack
                &&& final(self).irq_mode_cycle == old(self).irq_mode_cycle
                &&& final(self).irq_counter == old(self).irq_counter
                &&& final(self).irq_prescaler == old(self).irq_prescaler
            },
            reg < 2 ==> {
                &&& final(self).irq_pending == old(self).irq_pending
                &&& final(self).irq_enable == old(self).irq_enable
                &&& final(self).irq_enable_after_ack == old(self).irq_enable_after_ack
                &&& final(self).irq_mode_cycle == old(self).irq_mode_cycle
                &&& final(self).irq_counter == old(self).irq_counter
                &&& final(self).irq_prescaler == old(self).irq_prescaler
            },
            *final(self) == (Vrc2_4Mapper {
                irq_latch: final(self).irq_latch,
                irq_pending: final(self).irq_pending,
                irq_enable: final(self).irq_enable,
                irq_enable_after_ack: final(self).irq_enable_after_ack,
                irq_mode_cycle: final(self).irq_mode_cycle,
                irq_counter: final(self).irq_counter,
                irq_prescaler: final(self).irq_prescaler,
                ..*old(self)
            }),
    {
        if reg == 0 {
            self.irq_latch = (self.irq_latch & 0xF0) | (value & 0x0F);
        } else if reg == 1 {
            self.irq_latch = (self.irq_latch & 0x0F) | ((value & 0x0F) << 4);
        } else if reg == 2 {
            self.irq_pending = false;
            self.irq_enable_after_ack = (value & 0x01) != 0;
            self.irq_enable = (value & 0x02) != 0;
            self.irq_mode_cycle = (value & 0x04) != 0;
            if self.irq_enable {
                self.irq_counter = self.irq_latch;
                self.irq_prescaler = PRESCALER_PERIOD;
            }
        } else {
            self.irq_pending = false;
            self.irq_enable = self.irq_enable_after_ack;
        }
    }

    pub fn cpu_read(&self, addr: u16) -> (r: u8)
        requires
            self.wf(),
        ensures
            r == self.spec_cpu_read(addr),
    {
        if addr <= 0x1FFF {
            return self.cpu_ram[(addr % 0x800) as usize];
        }
        if 0x6000 <= addr && addr <= 0x7FFF {
            return if self.variant.is_vrc2() {
                self.vrc2_latch & 0x01
            } else if self.wram_enable {
                self.prg_ram[(addr - 0x6000) as usize]
            } else {
                0
            };
        }
        if addr < 0x8000 {
            return 0;
        }
        let len = self.prg_rom.len();
        let bank: usize = if addr <= 0x9FFF {
            if self.prg_swap_mode { len.saturating_sub(2) } else { self.prg_index(self.prg_bank_0) }
        } else if addr <= 0xBFFF {
            self.prg_index(self.prg_bank_1)
        } else if addr <= 0xDFFF {
            if self.prg_swap_mode { self.prg_index(self.prg_bank_0) } else { len.saturating_sub(2) }
        } else {
            len.saturating_sub(1)
        };
        if bank < len {
            self.prg_rom[bank][(addr % 0x2000) as usize]
        } else {
            0
        }
    }

    /// RAM; at $6000 the VRC2 latch bit or (VRC4) PRG RAM when enabled;
    /// registers at $8000-$FFFF.
    pub fn cpu_write(&mut self, addr: u16, value: u8)
        requires
            old(self).wf(),
        ensures
            final(self).wf(),
            addr <= 0x1FFF ==> final(self).cpu_ram@ == old(self).cpu_ram@.update((addr as int) % 0x800, value),
            addr > 0x1FFF ==> final(self).cpu_ram == old(self).cpu_ram,
            final(self).vrc2_latch == (if 0x6000 <= addr <= 0x7FFF && is_vrc2(old(self).variant) { value & 1 } else { old(self).vrc2_latch }),
            0x6000 <= addr <= 0x7FFF && !is_vrc2(old(self).variant) && old(self).wram_enable
                ==> final(self).prg_ram@ == old(self).prg_ram@.update(addr - 0x6000, value),
            !(0x6000 <= addr <= 0x7FFF && !is_vrc2(old(self).variant) && old(self).wram_enable)
                ==> final(self).prg_ram == old(self).prg_ram,
            addr < 0x8000 ==> final(self).prg_bank_0 == old(self).prg_bank_0 && final(self).prg_bank_1 == old(self).prg_bank_1
                && final(self).chr_lo == old(self).chr_lo && final(self).chr_hi == old(self).chr_hi
                && final(self).mirroring == old(self).mirroring && final(self).irq_pending == old(self).irq_pending
                && final(self).irq_enable == old(self).irq_enable && final(self).irq_counter == old(self).irq_counter,
            final(self).variant == old(self).variant,
            final(self).chr_rom == old(self).chr_rom,
            final(self).prg_rom == old(self).prg_rom,
            final(self).vram == old(self).vram,
            final(self).palette_ram == old(self).palette_ram,
    {
        if addr <= 0x1FFF {
            self.cpu_ram.set((addr % 0x800) as usize, value);
        } else if 0x6000 <= addr && addr <= 0x7FFF {
            if self.variant.is_vrc2() {
                self.vrc2_latch = value & 0x01;
            } else if self.wram_enable {
                self.prg_ram.set((addr - 0x6000) as usize, value);
            }
        } else if addr >= 0x8000 {
            self.handle_write(addr, value);
        }
    }

    pub fn ppu_read(&self, addr: u16) -> (r: u8)
        requires
            self.wf(),
        ensures
            r == self.spec_ppu_read(addr),
    {
        if addr <= 0x1FFF {
            let b = self.chr_bank_number(((addr / 1024) % 8) as usize);
            if b < self.chr_rom.len() { self.chr_rom[b][(addr % 1024) as usize] } else { 0 }
        } else if addr <= 0x3EFF {
            self.vram[mirror_nametable_addr(addr, self.mirroring) as usize]
        } else if addr <= 0x3FFF {
            self.palette_ram[palette_index(addr)]
        } else {
            0
        }
    }

    /// CHR RAM (when the board has it) through the current banks, nametables
    /// and palette.
    pub fn ppu_write(&mut self, addr: u16, value: u8)
        requires
            old(self).wf(),
        ensures
            final(self).wf(),
            ({
                let b = old(self).spec_chr_bank_number(((addr as int) / 1024) % 8);
                &&& addr <= 0x1FFF && old(self).chr_is_ram && b < old(self).chr_rom@.len() ==> final(self).chr_rom@
                    == old(self).chr_rom@.update(b, final(self).chr_rom@[b])
                    && final(self).chr_rom@[b]@ == old(self).chr_rom@[b]@.update((addr as int) % 1024, value)
                &&& !(addr <= 0x1FFF && old(self).chr_is_ram && b < old(self).chr_rom@.len()) ==> final(self).chr_rom == old(self).chr_rom
            }),
            0x2000 <= addr <= 0x3EFF ==> final(self).vram@ == old(self).vram@.update(nt_offset(addr, old(self).mirroring), value),
            !(0x2000 <= addr <= 0x3EFF) ==> final(self).vram == old(self).vram,
            0x3F00 <= addr <= 0x3FFF ==> final(self).palette_ram@ == old(self).palette_ram@.update(palette_slot(addr), value),
            !(0x3F00 <= addr <= 0x3FFF) ==> final(self).palette_ram == old(self).palette_ram,
            final(self).chr_is_ram == old(self).chr_is_ram,
            final(self).chr_lo == old(self).chr_lo,
            final(self).chr_hi == old(self).chr_hi,
            final(self).variant == old(self).variant,
            final(self).cpu_ram == old(self).cpu_ram,
            final(self).prg_ram == old(self).prg_ram,
            final(self).mirroring == old(self).mirroring,
            final(self).prg_rom == old(self).prg_rom,
    {
        if addr <= 0x1FFF {
            if self.chr_is_ram {
                let b = self.chr_bank_number(((addr / 1024) % 8) as usize);
                if b < self.chr_rom.len() {
                    let mut page = self.chr_rom[b];
                    page[(addr % 1024) as usize] = value;
                    self.chr_rom.set(b, page);
                }
            }
        } else if addr <= 0x3EFF {
            let i = mirror_nametable_addr(addr, self.mirroring) as usize;
            self.vram.set(i, value);
        } else if addr <= 0x3FFF {
            let i = palette_index(addr);
            self.palette_ram.set(i, value);
        }
    }

    /// VRC4 only, while enabled: in cycle mode the counter is clocked every
    /// CPU cycle; in scanline mode the prescaler loses 3 dots a cycle and
    /// clocks the counter each time it runs out, reloading 341.
    pub fn cpu_cycle(&mut self, ppu_dot: u64)
        requires
            old(self).wf(),
        ensures
            final(self).wf(),
            !old(self).irq_enable || is_vrc2(old(self).variant) ==> *final(self) == *old(self),
            old(self).irq_enable && !is_vrc2(old(self).variant) ==> ({
                let c = clocked(old(self).irq_counter, old(self).irq_latch, old(self).irq_pending);
                let p = old(self).irq_prescaler - 3;
                if old(self).irq_mode_cycle {
                    &&& (final(self).irq_counter, final(self).irq_pending) == c
                    &&& final(self).irq_prescaler == old(self).irq_prescaler
                } else if p <= 0 {
                    &&& (final(self).irq_counter, final(self).irq_pending) == c
                    &&& final(self).irq_prescaler == p + PRESCALER_PERIOD
                } else {
                    &&& final(self).irq_counter == old(self).irq_counter
                    &&& final(self).irq_pending == old(self).irq_pending
                    &&& final(self).irq_prescaler == p
                }
            }),
            final(self).irq_enable == old(self).irq_enable,
            final(self).irq_latch == old(self).irq_latch,
            final(self).prg_bank_0 == old(self).prg_bank_0,
            final(self).prg_bank_1 == old(self).prg_bank_1,
            final(self).chr_lo == old(self).chr_lo,
            final(self).chr_hi == old(self).chr_hi,
            final(self).mirroring == old(self).mirroring,
            final(self).cpu_ram == old(self).cpu_ram,
            final(self).prg_ram == old(self).prg_ram,
            final(self).chr_rom == old(self).chr_rom,
            final(self).vram == old(self).vram,
            final(self).palette_ram == old(self).palette_ram,
    {
        if !self.irq_enable || self.variant.is_vrc2() {
            return;
        }
        if self.irq_mode_cycle {
            self.clock_irq_counter();
        } else {
            self.irq_prescaler = self.irq_prescaler - 3;
            if self.irq_prescaler <= 0 {
                self.irq_prescaler = self.irq_prescaler + PRESCALER_PERIOD;
                self.clock_irq_counter();
            }
        }
    }

    pub fn code_start(&self) -> (r: u16)
        requires
            self.wf(),
        ensures
            r == word(self.spec_cpu_read(RESET_TARGET_ADDR), self.spec_cpu_read(0xFFFD)),
    {
        make_word(self.cpu_read(RESET_TARGET_ADDR), self.cpu_read(RESET_TARGET_ADDR + 1))
    }

    pub fn poll_irq(&self) -> (r: bool)
        ensures
            r == self.irq_pending,
    {
        self.irq_pending
    }

    /// The PRG RAM, for battery saves, on a VRC4 with a battery.
    pub fn sram_data(&self) -> (r: Option<&[u8]>)
        ensures
            !(self.has_battery && !is_vrc2(self.variant)) ==> r is None,
            self.has_battery && !is_vrc2(self.variant) ==> (r matches Some(d) && d@ == self.prg_ram@),
    {
        if self.has_battery && !self.variant.is_vrc2() {
            Some(self.prg_ram.as_slice())
        } else {
            None
        }
    }

    pub fn mapper_id(&self) -> (r: u8)
        ensures
            r == spec_variant_mapper_id(self.variant),
    {
        self.variant.mapper_id()
    }
}

impl Vrc2_4Mapper {
    /// The bytes `save_state` appends.
    pub open spec fn state_bytes(&self) -> Seq<u8> {
        self.cpu_ram@
            + self.prg_ram@
            + self.vram@
            + self.palette_ram@
            + banks_bytes(self.chr_rom@)
            + self.chr_lo@
            + self.chr_hi@
            + enc_u8(self.prg_bank_0)
            + enc_u8(self.prg_bank_1)
            + enc_bool(self.prg_swap_mode)
            + enc_bool(self.wram_enable)
            + enc_u8(self.vrc2_latch)
            + enc_u8(self.irq_latch)
            + enc_u8(self.irq_counter)
            + enc_u16(self.irq_prescaler as u16)
            + enc_bool(self.irq_mode_cycle)
            + enc_bool(self.irq_enable)
            + enc_bool(self.irq_enable_after_ack)
            + enc_bool(self.irq_pending)
            + enc_u8(mirror_code(self.mirroring))
            + controllers_bytes(self.controllers)
    }

    /// Length of the saved state.
    pub open spec fn state_len(&self) -> nat {
        (CPU_RAM_SIZE + PRG_RAM_8K + VRAM_SIZE + PALETTE_SIZE + self.chr_rom@.len() * CHR_BANK_SIZE + 2 * CONTROLLER_STATE_LEN + 30) as nat
    }

    /// Every register that the state stores in fewer bits than it is held in
    /// fits in those bits.
    pub open spec fn fits(&self) -> bool {
        &&& 0 <= self.irq_prescaler
    }

    /// The stored bytes at `p` hold a state that this cartridge can take.
    pub open spec fn state_valid(&self, d: Seq<u8>, p: int) -> bool {
        &&& 0 < (dec_u16_at(d, (p + CPU_RAM_SIZE + PRG_RAM_8K + VRAM_SIZE + PALETTE_SIZE + self.chr_rom@.len() * CHR_BANK_SIZE + 23)) as i16) <= PRESCALER_PERIOD
        &&& mirror_from_code(d[(p + CPU_RAM_SIZE + PRG_RAM_8K + VRAM_SIZE + PALETTE_SIZE + self.chr_rom@.len() * CHR_BANK_SIZE + 29)]) is Some
    }

    /// What `load_state` answers for the bytes at `p`.
    pub open spec fn load_outcome(&self, d: Seq<u8>, p: int) -> Result<(), StateError> {
        if p + self.state_len() > d.len() {
            Err(StateError::UnexpectedEof)
        } else if !self.state_valid(d, p) {
            Err(StateError::InvalidValue)
        } else {
            Ok(())
        }
    }

    /// Every saved field holds what the bytes at `p` store.
    pub open spec fn loaded_from(&self, d: Seq<u8>, p: int) -> bool {
        &&& self.cpu_ram@ == d.subrange(p, p + CPU_RAM_SIZE)
        &&& self.prg_ram@ == d.subrange((p + CPU_RAM_SIZE), (p + CPU_RAM_SIZE) + PRG_RAM_8K)
        &&& self.vram@ == d.subrange((p + CPU_RAM_SIZE + PRG_RAM_8K), (p + CPU_RAM_SIZE + PRG_RAM_8K) + VRAM_SIZE)
        &&& self.palette_ram@ == d.subrange((p + CPU_RAM_SIZE + PRG_RAM_8K + VRAM_SIZE), (p + CPU_RAM_SIZE + PRG_RAM_8K + VRAM_SIZE) + PALETTE_SIZE)
        &&& forall|j: int| 0 <= j < self.chr_rom@.len() ==> #[trigger] self.chr_rom@[j]@ == bank_at(d, (p + CPU_RAM_SIZE + PRG_RAM_8K + VRAM_SIZE + PALETTE_SIZE), j, CHR_BANK_SIZE as int)
        &&& self.chr_lo@ == d.subrange((p + CPU_RAM_SIZE + PRG_RAM_8K + VRAM_SIZE + PALETTE_SIZE + self.chr_rom@.len() * CHR_BANK_SIZE), (p + CPU_RAM_SIZE + PRG_RAM_8K + VRAM_SIZE + PALETTE_SIZE + self.chr_rom@.len() * CHR_BANK_SIZE) + 8)
        &&& self.chr_hi@ == d.subrange((p + CPU_RAM_SIZE + PRG_RAM_8K + VRAM_SIZE + PALETTE_SIZE + self.chr_rom@.len() * CHR_BANK_SIZE + 8), (p + CPU_RAM_SIZE + PRG_RAM_8K + VRAM_SIZE + PALETTE_SIZE + self.chr_rom@.len() * CHR_BANK_SIZE + 8) + 8)
        &&& self.prg_bank_0 == d[(p + CPU_RAM_SIZE + PRG_RAM_8K + VRAM_SIZE + PALETTE_SIZE + self.chr_rom@.len() * CHR_BANK_SIZE + 16)]
        &&& self.prg_bank_1 == d[(p + CPU_RAM_SIZE + PRG_RAM_8K + VRAM_SIZE + PALETTE_SIZE + self.chr_rom@.len() * CHR_BANK_SIZE + 17)]
        &&& self.prg_swap_mode == (d[(p + CPU_RAM_SIZE + PRG_RAM_8K + VRAM_SIZE + PALETTE_SIZE + self.chr_rom@.len() * CHR_BANK_SIZE + 18)] != 0)
        &&& self.wram_enable == (d[(p + CPU_RAM_SIZE + PRG_RAM_8K + VRAM_SIZE + PALETTE_SIZE + self.chr_rom@.len() * CHR_BANK_SIZE + 19)] != 0)
        &&& self.vrc2_latch == d[(p + CPU_RAM_SIZE + PRG_RAM_8K + VRAM_SIZE + PALETTE_SIZE + self.chr_rom@.len() * CHR_BANK_SIZE + 20)]
        &&& self.irq_latch == d[(p + CPU_RAM_SIZE + PRG_RAM_8K + VRAM_SIZE + PALETTE_SIZE + self.chr_rom@.len() * CHR_BANK_SIZE + 21)]
        &&& self.irq_counter == d[(p + CPU_RAM_SIZE + PRG_RAM_8K + VRAM_SIZE + PALETTE_SIZE + self.chr_rom@.len() * CHR_BANK_SIZE + 22)]
        &&& self.irq_prescaler == dec_u16_at(d, (p + CPU_RAM_SIZE + PRG_RAM_8K + VRAM_SIZE + PALETTE_SIZE + self.chr_rom@.len() * CHR_BANK_SIZE + 23)) as i16
        &&& self.irq_mode_cycle == (d[(p + CPU_RAM_SIZE + PRG_RAM_8K + VRAM_SIZE + PALETTE_SIZE + self.chr_rom@.len() * CHR_BANK_SIZE + 25)] != 0)
        &&& self.irq_enable == (d[(p + CPU_RAM_SIZE + PRG_RAM_8K + VRAM_SIZE + PALETTE_SIZE + self.chr_rom@.len() * CHR_BANK_SIZE + 26)] != 0)
        &&& self.irq_enable_after_ack == (d[(p + CPU_RAM_SIZE + PRG_RAM_8K + VRAM_SIZE + PALETTE_SIZE + self.chr_rom@.len() * CHR_BANK_SIZE + 27)] != 0)
        &&& self.irq_pending == (d[(p + CPU_RAM_SIZE + PRG_RAM_8K + VRAM_SIZE + PALETTE_SIZE + self.chr_rom@.len() * CHR_BANK_SIZE + 28)] != 0)
        &&& self.mirroring == mirror_from_code(d[(p + CPU_RAM_SIZE + PRG_RAM_8K + VRAM_SIZE + PALETTE_SIZE + self.chr_rom@.len() * CHR_BANK_SIZE + 29)])->0
        &&& self.controllers@[0] == controller_at(d, (p + CPU_RAM_SIZE + PRG_RAM_8K + VRAM_SIZE + PALETTE_SIZE + self.chr_rom@.len() * CHR_BANK_SIZE + 30))
        &&& self.controllers@[1] == controller_at(d, (p + CPU_RAM_SIZE + PRG_RAM_8K + VRAM_SIZE + PALETTE_SIZE + self.chr_rom@.len() * CHR_BANK_SIZE + 30) + CONTROLLER_STATE_LEN)
    }

    /// The two agree on every saved field.
    pub open spec fn same_state(&self, other: &Self) -> bool {
        &&& self.cpu_ram@ == other.cpu_ram@
        &&& self.prg_ram@ == other.prg_ram@
        &&& self.vram@ == other.vram@
        &&& self.palette_ram@ == other.palette_ram@
        &&& self.chr_rom@.len() == other.chr_rom@.len()
        &&& forall|j: int| 0 <= j < self.chr_rom@.len() ==> #[trigger] self.chr_rom@[j]@ == other.chr_rom@[j]@
        &&& self.chr_lo@ == other.chr_lo@
        &&& self.chr_hi@ == other.chr_hi@
        &&& self.prg_bank_0 == other.prg_bank_0
        &&& self.prg_bank_1 == other.prg_bank_1
        &&& self.prg_swap_mode == other.prg_swap_mode
        &&& self.wram_enable == other.wram_enable
        &&& self.vrc2_latch == other.vrc2_latch
        &&& self.irq_latch == other.irq_latch
        &&& self.irq_counter == other.irq_counter
        &&& self.irq_prescaler == other.irq_prescaler
        &&& self.irq_mode_cycle == other.irq_mode_cycle
        &&& self.irq_enable == other.irq_enable
        &&& self.irq_enable_after_ack == other.irq_enable_after_ack
        &&& self.irq_pending == other.irq_pending
        &&& self.mirroring == other.mirroring
        &&& self.controllers@ == other.controllers@
    }

    /// The two agree on every field that the state does not store.
    pub open spec fn keeps_unsaved(&self, other: &Self) -> bool {
        &&& self.variant == other.variant
        &&& self.prg_rom == other.prg_rom
        &&& self.chr_is_ram == other.chr_is_ram
        &&& self.has_battery == other.has_battery
    }

    /// The two come from cartridges of the same shape.
    pub open spec fn same_layout(&self, other: &Self) -> bool {
        &&& self.chr_rom@.len() == other.chr_rom@.len()
    }

    #[verifier::spinoff_prover]
    pub fn save_state(&self, w: &mut SavestateWriter)
        ensures
            final(w).buf@ == old(w).buf@ + self.state_bytes(),
    {
        let ghost b = w.buf@;
        let ghost s0 = self.cpu_ram@;
        let ghost s1 = s0 + self.prg_ram@;
        let ghost s2 = s1 + self.vram@;
        let ghost s3 = s2 + self.palette_ram@;
        let ghost s4 = s3 + banks_bytes(self.chr_rom@);
        let ghost s5 = s4 + self.chr_lo@;
        let ghost s6 = s5 + self.chr_hi@;
        let ghost s7 = s6 + enc_u8(self.prg_bank_0);
        let ghost s8 = s7 + enc_u8(self.prg_bank_1);
        let ghost s9 = s8 + enc_bool(self.prg_swap_mode);
        let ghost s10 = s9 + enc_bool(self.wram_enable);
        let ghost s11 = s10 + enc_u8(self.vrc2_latch);
        let ghost s12 = s11 + enc_u8(self.irq_latch);
        let ghost s13 = s12 + enc_u8(self.irq_counter);
        let ghost s14 = s13 + enc_u16(self.irq_prescaler as u16);
        let ghost s15 = s14 + enc_bool(self.irq_mode_cycle);
        let ghost s16 = s15 + enc_bool(self.irq_enable);
        let ghost s17 = s16 + enc_bool(self.irq_enable_after_ack);
        let ghost s18 = s17 + enc_bool(self.irq_pending);
        let ghost s19 = s18 + enc_u8(mirror_code(self.mirroring));
        let ghost s20 = s19 + controllers_bytes(self.controllers);
        w.write_bytes(self.cpu_ram.as_slice());
        w.write_bytes(self.prg_ram.as_slice());
        proof {
            lemma_add_assoc(b, s0, self.prg_ram@);
        }
        w.write_bytes(self.vram.as_slice());
        proof {
            lemma_add_assoc(b, s1, self.vram@);
        }
        w.write_bytes(self.palette_ram.as_slice());
        proof {
            lemma_add_assoc(b, s2, self.palette_ram@);
        }
        w.write_banks(&self.chr_rom);
        proof {
            lemma_add_assoc(b, s3, banks_bytes(self.chr_rom@));
        }
        w.write_bytes(self.chr_lo.as_slice());
        proof {
            lemma_add_assoc(b, s4, self.chr_lo@);
        }
        w.write_bytes(self.chr_hi.as_slice());
        proof {
            lemma_add_assoc(b, s5, self.chr_hi@);
        }
        w.write_u8(self.prg_bank_0);
        proof {
            lemma_add_assoc(b, s6, enc_u8(self.prg_bank_0));
        }
        w.write_u8(self.prg_bank_1);
        proof {
            lemma_add_assoc(b, s7, enc_u8(self.prg_bank_1));
        }
        w.write_bool(self.prg_swap_mode);
        proof {
            lemma_add_assoc(b, s8, enc_bool(self.prg_swap_mode));
        }
        w.write_bool(self.wram_enable);
        proof {
            lemma_add_assoc(b, s9, enc_bool(self.wram_enable));
        }
        w.write_u8(self.vrc2_latch);
        proof {
            lemma_add_assoc(b, s10, enc_u8(self.vrc2_latch));
        }
        w.write_u8(self.irq_latch);
        proof {
            lemma_add_assoc(b, s11, enc_u8(self.irq_latch));
        }
        w.write_u8(self.irq_counter);
        proof {
            lemma_add_assoc(b, s12, enc_u8(self.irq_counter));
        }
        w.write_u16(self.irq_prescaler as u16);
        proof {
            lemma_add_assoc(b, s13, enc_u16(self.irq_prescaler as u16));
        }
        w.write_bool(self.irq_mode_cycle);
        proof {
            lemma_add_assoc(b, s14, enc_bool(self.irq_mode_cycle));
        }
        w.write_bool(self.irq_enable);
        proof {
            lemma_add_assoc(b, s15, enc_bool(self.irq_enable));
        }
        w.write_bool(self.irq_enable_after_ack);
        proof {
            lemma_add_assoc(b, s16, enc_bool(self.irq_enable_after_ack));
        }
        w.write_bool(self.irq_pending);
        proof {
            lemma_add_assoc(b, s17, enc_bool(self.irq_pending));
        }
        save_mirroring(w, self.mirroring);
        proof {
            lemma_add_assoc(b, s18, enc_u8(mirror_code(self.mirroring)));
        }
        save_controllers(w, &self.controllers);
        proof {
            lemma_add_assoc(b, s19, controllers_bytes(self.controllers));
        }
    }

    /// Restores a state written by `save_state`. Nothing changes unless the
    /// whole state is there and holds values this cartridge can take.
    #[verifier::spinoff_prover]
    pub fn load_state(&mut self, r: &mut SavestateReader) -> (res: Result<(), StateError>)
        requires
            old(self).wf(),
            old(r).wf(),
        ensures
            final(r).wf(),
            final(r).data@ == old(r).data@,
            res == old(self).load_outcome(old(r).data@, old(r).pos as int),
            res is Err ==> *final(self) == *old(self) && final(r).pos == old(r).pos,
            res is Ok ==> final(self).wf() && final(self).loaded_from(old(r).data@, old(r).pos as int)
                && final(self).keeps_unsaved(&*old(self)) && final(self).same_layout(&*old(self))
                && final(r).pos == old(r).pos + old(self).state_len(),
    {
        let ghost d = r.data@;
        let ghost p = r.pos as int;
        let start = r.pos;
        let data_len = r.data.len();
        let chr_len: usize = match self.chr_rom.len().checked_mul(CHR_BANK_SIZE) {
            Some(n) => n,
            None => {
                return Err(StateError::UnexpectedEof);
            },
        };
        let rem = r.remaining_len();
        if rem < chr_len || rem - chr_len < CPU_RAM_SIZE + PRG_RAM_8K + VRAM_SIZE + PALETTE_SIZE + 2 * CONTROLLER_STATE_LEN + 30 {
            return Err(StateError::UnexpectedEof);
        }
        let cpu_ram = r.take_bytes(CPU_RAM_SIZE);
        let prg_ram = r.take_bytes(PRG_RAM_8K);
        let vram = r.take_bytes(VRAM_SIZE);
        let palette_ram = r.take_bytes(PALETTE_SIZE);
        let chr_rom = r.take_banks::<CHR_BANK_SIZE>(self.chr_rom.len());
        let chr_lo_bytes = r.take_bytes(8);
        let mut chr_lo = self.chr_lo;
        copy_into_array(&mut chr_lo, &chr_lo_bytes);
        let chr_hi_bytes = r.take_bytes(8);
        let mut chr_hi = self.chr_hi;
        copy_into_array(&mut chr_hi, &chr_hi_bytes);
        let prg_bank_0 = r.take_u8();
        let prg_bank_1 = r.take_u8();
        let prg_swap_mode = r.take_bool();
        let wram_enable = r.take_bool();
        let vrc2_latch = r.take_u8();
        let irq_latch = r.take_u8();
        let irq_counter = r.take_u8();
        let irq_prescaler = r.take_u16() as i16;
        let irq_mode_cycle = r.take_bool();
        let irq_enable = r.take_bool();
        let irq_enable_after_ack = r.take_bool();
        let irq_pending = r.take_bool();
        let mirroring_code = r.take_u8();
        let controllers = take_controllers(r);
        let mirroring = match mirroring_from_code(mirroring_code) {
            Some(m) => m,
            None => {
                r.rewind(start);
                return Err(StateError::InvalidValue);
            },
        };
        if (irq_prescaler <= 0 || irq_prescaler > PRESCALER_PERIOD) {
            r.rewind(start);
            return Err(StateError::InvalidValue);
        }
        self.cpu_ram = cpu_ram;
        self.prg_ram = prg_ram;
        self.vram = vram;
        self.palette_ram = palette_ram;
        self.chr_rom = chr_rom;
        self.chr_lo = chr_lo;
        self.chr_hi = chr_hi;
        self.prg_bank_0 = prg_bank_0;
        self.prg_bank_1 = prg_bank_1;
        self.prg_swap_mode = prg_swap_mode;
        self.wram_enable = wram_enable;
        self.vrc2_latch = vrc2_latch;
        self.irq_latch = irq_latch;
        self.irq_counter = irq_counter;
        self.irq_prescaler = irq_prescaler;
        self.irq_mode_cycle = irq_mode_cycle;
        self.irq_enable = irq_enable;
        self.irq_enable_after_ack = irq_enable_after_ack;
        self.irq_pending = irq_pending;
        self.mirroring = mirroring;
        self.controllers = controllers;
        Ok(())
    }

    /// Saving a state and loading it into a cartridge of the same shape
    /// succeeds and restores every saved field.
    #[verifier::spinoff_prover]
    pub proof fn lemma_state_roundtrip(o: Self, m: Self, n: Self, d: Seq<u8>, p: int)
        requires
            o.wf(),
            m.wf(),
            m.fits(),
            o.same_layout(&m),
            n.same_layout(&m),
            stored_at(d, p, m.state_bytes()),
        ensures
            o.load_outcome(d, p) == Ok::<(), StateError>(()),
            n.loaded_from(d, p) ==> n.same_state(&m),
    {
        let s0 = m.cpu_ram@;
        let s1 = s0 + m.prg_ram@;
        let s2 = s1 + m.vram@;
        let s3 = s2 + m.palette_ram@;
        let s4 = s3 + banks_bytes(m.chr_rom@);
        let s5 = s4 + m.chr_lo@;
        let s6 = s5 + m.chr_hi@;
        let s7 = s6 + enc_u8(m.prg_bank_0);
        let s8 = s7 + enc_u8(m.prg_bank_1);
        let s9 = s8 + enc_bool(m.prg_swap_mode);
        let s10 = s9 + enc_bool(m.wram_enable);
        let s11 = s10 + enc_u8(m.vrc2_latch);
        let s12 = s11 + enc_u8(m.irq_latch);
        let s13 = s12 + enc_u8(m.irq_counter);
        let s14 = s13 + enc_u16(m.irq_prescaler as u16);
        let s15 = s14 + enc_bool(m.irq_mode_cycle);
        let s16 = s15 + enc_bool(m.irq_enable);
        let s17 = s16 + enc_bool(m.irq_enable_after_ack);
        let s18 = s17 + enc_bool(m.irq_pending);
        let s19 = s18 + enc_u8(mirror_code(m.mirroring));
        let s20 = s19 + controllers_bytes(m.controllers);
        lemma_stored_split(d, p, s19, controllers_bytes(m.controllers));
        lemma_stored_split(d, p, s18, enc_u8(mirror_code(m.mirroring)));
        lemma_stored_split(d, p, s17, enc_bool(m.irq_pending));
        lemma_stored_split(d, p, s16, enc_bool(m.irq_enable_after_ack));
        lemma_stored_split(d, p, s15, enc_bool(m.irq_enable));
        lemma_stored_split(d, p, s14, enc_bool(m.irq_mode_cycle));
        lemma_stored_split(d, p, s13, enc_u16(m.irq_prescaler as u16));
        lemma_stored_split(d, p, s12, enc_u8(m.irq_counter));
        lemma_stored_split(d, p, s11, enc_u8(m.irq_latch));
        lemma_stored_split(d, p, s10, enc_u8(m.vrc2_latch));
        lemma_stored_split(d, p, s9, enc_bool(m.wram_enable));
        lemma_stored_split(d, p, s8, enc_bool(m.prg_swap_mode));
        lemma_stored_split(d, p, s7, enc_u8(m.prg_bank_1));
        lemma_stored_split(d, p, s6, enc_u8(m.prg_bank_0));
        lemma_stored_split(d, p, s5, m.chr_hi@);
        lemma_stored_split(d, p, s4, m.chr_lo@);
        lemma_stored_split(d, p, s3, banks_bytes(m.chr_rom@));
        lemma_stored_split(d, p, s2, m.palette_ram@);
        lemma_stored_split(d, p, s1, m.vram@);
        lemma_stored_split(d, p, s0, m.prg_ram@);
        lemma_stored_banks(d, (p + CPU_RAM_SIZE + PRG_RAM_8K + VRAM_SIZE + PALETTE_SIZE), m.chr_rom@);
        if n.loaded_from(d, p) {
            assert forall|j: int| 0 <= j < n.chr_rom@.len() implies #[trigger] n.chr_rom@[j]@ == m.chr_rom@[j]@ by {
                assert(bank_at(d, (p + CPU_RAM_SIZE + PRG_RAM_8K + VRAM_SIZE + PALETTE_SIZE), j, CHR_BANK_SIZE as int) == m.chr_rom@[j]@);
            }
        }
        lemma_stored_u8(d, (p + CPU_RAM_SIZE + PRG_RAM_8K + VRAM_SIZE + PALETTE_SIZE + m.chr_rom@.len() * CHR_BANK_SIZE + 16), m.prg_bank_0);
        lemma_stored_u8(d, (p + CPU_RAM_SIZE + PRG_RAM_8K + VRAM_SIZE + PALETTE_SIZE + m.chr_rom@.len() * CHR_BANK_SIZE + 17), m.prg_bank_1);
        lemma_stored_bool(d, (p + CPU_RAM_SIZE + PRG_RAM_8K + VRAM_SIZE + PALETTE_SIZE + m.chr_rom@.len() * CHR_BANK_SIZE + 18), m.prg_swap_mode);
        lemma_stored_bool(d, (p + CPU_RAM_SIZE + PRG_RAM_8K + VRAM_SIZE + PALETTE_SIZE + m.chr_rom@.len() * CHR_BANK_SIZE + 19), m.wram_enable);
        lemma_stored_u8(d, (p + CPU_RAM_SIZE + PRG_RAM_8K + VRAM_SIZE + PALETTE_SIZE + m.chr_rom@.len() * CHR_BANK_SIZE + 20), m.vrc2_latch);
        lemma_stored_u8(d, (p + CPU_RAM_SIZE + PRG_RAM_8K + VRAM_SIZE + PALETTE_SIZE + m.chr_rom@.len() * CHR_BANK_SIZE + 21), m.irq_latch);
        lemma_stored_u8(d, (p + CPU_RAM_SIZE + PRG_RAM_8K + VRAM_SIZE + PALETTE_SIZE + m.chr_rom@.len() * CHR_BANK_SIZE + 22), m.irq_counter);
        lemma_stored_u16(d, (p + CPU_RAM_SIZE + PRG_RAM_8K + VRAM_SIZE + PALETTE_SIZE + m.chr_rom@.len() * CHR_BANK_SIZE + 23), m.irq_prescaler as u16);
        lemma_stored_bool(d, (p + CPU_RAM_SIZE + PRG_RAM_8K + VRAM_SIZE + PALETTE_SIZE + m.chr_rom@.len() * CHR_BANK_SIZE + 25), m.irq_mode_cycle);
        lemma_stored_bool(d, (p + CPU_RAM_SIZE + PRG_RAM_8K + VRAM_SIZE + PALETTE_SIZE + m.chr_rom@.len() * CHR_BANK_SIZE + 26), m.irq_enable);
        lemma_stored_bool(d, (p + CPU_RAM_SIZE + PRG_RAM_8K + VRAM_SIZE + PALETTE_SIZE + m.chr_rom@.len() * CHR_BANK_SIZE + 27), m.irq_enable_after_ack);
        lemma_stored_bool(d, (p + CPU_RAM_SIZE + PRG_RAM_8K + VRAM_SIZE + PALETTE_SIZE + m.chr_rom@.len() * CHR_BANK_SIZE + 28), m.irq_pending);
        lemma_stored_u8(d, (p + CPU_RAM_SIZE + PRG_RAM_8K + VRAM_SIZE + PALETTE_SIZE + m.chr_rom@.len() * CHR_BANK_SIZE + 29), mirror_code(m.mirroring));
        lemma_mirror_code_roundtrip(m.mirroring);
        lemma_stored_controllers(d, (p + CPU_RAM_SIZE + PRG_RAM_8K + VRAM_SIZE + PALETTE_SIZE + m.chr_rom@.len() * CHR_BANK_SIZE + 30), m.controllers);
        if n.loaded_from(d, p) {
            assert(n.controllers@ =~= m.controllers@);
        }
    }
}

/// Level (0 or 1) of CPU address line A`k` in `addr`.
pub open spec fn addr_line(addr: u16, k: u16) -> int {
    ((addr >> k) & 1) as int
}

proof fn lemma_lines_as_division(addr: u16)
    by (bit_vector)
    ensures
        (addr / 1) % 2 == (addr >> 0u16) & 1,
        (addr / 2) % 2 == (addr >> 1u16) & 1,
        (addr / 4) % 2 == (addr >> 2u16) & 1,
        (addr / 8) % 2 == (addr >> 3u16) & 1,
        (addr / 64) % 2 == (addr >> 6u16) & 1,
        (addr / 128) % 2 == (addr >> 7u16) & 1,
{
}

/// The register (0-3) a write selects within its $1000 block is
/// A`x` + 2 * A`y`, where the board the iNES mapper and submapper numbers
/// name wires CPU lines A`x` and A`y` to the chip's A0 and A1: mapper 21
/// is VRC4a (A1, A2), or VRC4c (A6, A7) as submapper 2; mapper 22 is VRC2a
/// (A1, A0); mapper 23 is VRC4e (A2, A3), VRC4f (A0, A1) as submapper 1 and
/// VRC2b (A0, A1) as submapper 3; mapper 25 is VRC4b (A1, A0), VRC4d
/// (A3, A2) as submapper 2 and VRC2c (A1, A0) as submapper 3.
pub proof fn lemma_register_address_lines(mapper_id: u8, submapper: u8, addr: u16)
    requires
        mapper_id == 21 || mapper_id == 22 || mapper_id == 23 || mapper_id == 25,
    ensures
        spec_decode_reg(spec_resolve_variant(mapper_id, submapper), addr) == (if mapper_id == 21 {
            if submapper == 2 {
                addr_line(addr, 6) + 2 * addr_line(addr, 7)
            } else {
                addr_line(addr, 1) + 2 * addr_line(addr, 2)
            }
        } else if mapper_id == 22 {
            addr_line(addr, 1) + 2 * addr_line(addr, 0)
        } else if mapper_id == 23 {
            if submapper == 1 || submapper == 3 {
                addr_line(addr, 0) + 2 * addr_line(addr, 1)
            } else {
                addr_line(addr, 2) + 2 * addr_line(addr, 3)
            }
        } else {
            if submapper == 2 {
                addr_line(addr, 3) + 2 * addr_line(addr, 2)
            } else {
                addr_line(addr, 1) + 2 * addr_line(addr, 0)
            }
        }),
{
    lemma_lines_as_division(addr);
}

} // verus!
