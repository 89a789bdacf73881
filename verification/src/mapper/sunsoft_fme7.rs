//! Sunsoft FME-7 (mapper 69): a command register at $8000 and a parameter
//! register at $A000 reach eight 1KB CHR banks, the $6000 window (ROM, RAM
//! or nothing), three 8KB PRG banks, mirroring, and a 16-bit CPU-cycle IRQ
//! counter.

use vstd::prelude::*;
use crate::bus::{NametableMirror, CPU_RAM_SIZE, VRAM_SIZE, PALETTE_SIZE, RESET_TARGET_ADDR, nt_offset, mirror_nametable_addr, palette_slot, palette_index, word, make_word};
use crate::ppu_bus::{zeroed, filled};
use crate::controller::Controller;
use crate::mapper::common::{new_controllers, split_16k_to_8k, ram_with_saved};
use crate::mapper::irem_g101::sat_sub;
use crate::mapper::sunsoft3::s3_mirroring;

use crate::savestate::{SavestateWriter, SavestateReader, StateError, enc_u8, enc_bool, enc_u16, dec_u16_at, stored_at, lemma_add_assoc, lemma_stored_split, lemma_stored_u8, lemma_stored_bool, lemma_stored_u16, copy_into_array};
use crate::controller::{controllers_bytes, controller_at, save_controllers, take_controllers, lemma_stored_controllers, CONTROLLER_STATE_LEN};
use crate::ppu_bus::{mirror_code, mirror_from_code, mirroring_from_code, save_mirroring, lemma_mirror_code_roundtrip};

verus! {

pub const PRG_BANK_SIZE: usize = 0x2000;
pub const CHR_BANK_SIZE: usize = 0x0400;
pub const PRG_RAM_SIZE: usize = 0x2000;

pub struct SunsoftFme7Mapper {
    pub controllers: [Controller; 2],
    pub prg_rom: Vec<[u8; PRG_BANK_SIZE]>,
    pub chr_8k: Vec<[u8; 8192]>,
    pub prg_ram: Vec<u8>,
    pub has_battery: bool,
    pub command: u8,
    pub chr_banks: [u8; 8],
    pub prg_banks: [u8; 4],
    /// Command 8: bit 6 maps RAM (else ROM) at $6000, bit 7 enables the RAM,
    /// bits 0-5 pick the ROM bank.
    pub work_ram_value: u8,
    pub mirroring: NametableMirror,
    pub irq_counter: u16,
    pub irq_counter_enabled: bool,
    pub irq_enabled: bool,
    pub irq_pending: bool,
    pub vram: Vec<u8>,
    pub cpu_ram: Vec<u8>,
    pub palette_ram: Vec<u8>,
}

impl SunsoftFme7Mapper {
    pub open spec fn wf(&self) -> bool {
        &&& self.cpu_ram@.len() == CPU_RAM_SIZE
        &&& self.prg_ram@.len() == PRG_RAM_SIZE
        &&& self.vram@.len() == VRAM_SIZE
        &&& self.palette_ram@.len() == PALETTE_SIZE
        &&& 8 * self.chr_8k@.len() <= usize::MAX
    }

    /// Byte `off` of PRG bank `bank`, or 0 past the end of the ROM.
    pub open spec fn rom_byte(&self, bank: int, off: int) -> u8 {
        if 0 <= bank < self.prg_rom@.len() { self.prg_rom@[bank][off] } else { 0 }
    }

    pub open spec fn spec_cpu_read(&self, addr: u16) -> u8 {
        let len = self.prg_rom@.len() as int;
        let m: int = if len == 0 { 1 } else { len };
        let v = self.work_ram_value;
        if addr <= 0x1FFF {
            self.cpu_ram@[(addr as int) % 0x800]
        } else if 0x6000 <= addr <= 0x7FFF {
            if v & 0x40 != 0 {
                if v & 0x80 != 0 { self.prg_ram@[addr - 0x6000] } else { 0 }
            } else {
                self.rom_byte((v & 0x3F) as int % m, addr - 0x6000)
            }
        } else if addr >= 0xE000 {
            self.rom_byte(sat_sub(len, 1), addr - 0xE000)
        } else if addr >= 0x8000 {
            let slot = ((addr as int) - 0x8000) / 0x2000 + 1;
            self.rom_byte((self.prg_banks@[slot] & 0x3F) as int % m, (addr as int) % 0x2000)
        } else {
            0
        }
    }

    pub open spec fn spec_ppu_read(&self, addr: u16) -> u8 {
        if addr <= 0x1FFF {
            let n = 8 * self.chr_8k@.len() as int;
            if n == 0 {
                0
            } else {
                let b = self.chr_banks@[((addr as int) / 1024) % 8] as int % n;
                self.chr_8k@[b / 8][(b % 8) * 1024 + (addr as int) % 1024]
            }
        } else if addr <= 0x3EFF {
            self.vram@[nt_offset(addr, self.mirroring)]
        } else if addr <= 0x3FFF {
            self.palette_ram@[palette_slot(addr)]
        } else {
            0
        }
    }

    /// What `new` builds from its arguments.
    pub open spec fn built_by_new(flags: u8, prg_banks_16k: Vec<[u8; 16384]>, chr_banks_8k: Vec<[u8; 8192]>, has_battery: bool, sram_data: Option<Vec<u8>>, m: SunsoftFme7Mapper) -> bool {
        &&& (m.wf())
        &&& (m.prg_rom@.len() == 2 * prg_banks_16k@.len())
        &&& (forall|i: int| 0 <= i < m.prg_rom@.len() ==> #[trigger] m.prg_rom@[i]@ == prg_banks_16k@[i / 2]@.subrange(
                (i % 2) * 8192,
                (i % 2) * 8192 + 8192,
            ))
        &&& (m.chr_8k@ == chr_banks_8k@)
        &&& (forall|i: int| 0 <= i < PRG_RAM_SIZE ==> #[trigger] m.prg_ram@[i] == (match sram_data {
                Some(d) => if i < d@.len() { d@[i] } else { 0u8 },
                None => 0u8,
            }))
        &&& (m.has_battery == has_battery)
        &&& (m.command == 0 && m.work_ram_value == 0)
        &&& (forall|i: int| 0 <= i < 8 ==> m.chr_banks@[i] == 0)
        &&& (forall|i: int| 0 <= i < 4 ==> m.prg_banks@[i] == 0)
        &&& (m.mirroring == (if flags & 1 != 0 { NametableMirror::Vertical } else { NametableMirror::Horizontal }))
        &&& (m.irq_counter == 0 && !m.irq_counter_enabled && !m.irq_enabled && !m.irq_pending)
        &&& (m.vram@ == Seq::new(VRAM_SIZE as nat, |i: int| 0u8))
        &&& (m.cpu_ram@ == Seq::new(CPU_RAM_SIZE as nat, |i: int| 0u8))
        &&& (m.palette_ram@ == Seq::new(PALETTE_SIZE as nat, |i: int| 0x0Fu8))
    }

    /// PRG RAM is filled from the saved data; every register starts at 0
    /// (so ROM bank 0 shows at $6000).
    pub fn new(flags: u8, prg_banks_16k: Vec<[u8; 16384]>, chr_banks_8k: Vec<[u8; 8192]>, has_battery: bool, sram_data: Option<Vec<u8>>) -> (m: SunsoftFme7Mapper)
        requires
            2 * prg_banks_16k@.len() <= usize::MAX,
            8 * chr_banks_8k@.len() <= usize::MAX,
        ensures
            m.wf(),
            m.prg_rom@.len() == 2 * prg_banks_16k@.len(),
            forall|i: int| 0 <= i < m.prg_rom@.len() ==> #[trigger] m.prg_rom@[i]@ == prg_banks_16k@[i / 2]@.subrange(
                (i % 2) * 8192,
                (i % 2) * 8192 + 8192,
            ),
            m.chr_8k@ == chr_banks_8k@,
            forall|i: int| 0 <= i < PRG_RAM_SIZE ==> #[trigger] m.prg_ram@[i] == (match sram_data {
                Some(d) => if i < d@.len() { d@[i] } else { 0u8 },
                None => 0u8,
            }),
            m.has_battery == has_battery,
            m.command == 0 && m.work_ram_value == 0,
            forall|i: int| 0 <= i < 8 ==> m.chr_banks@[i] == 0,
            forall|i: int| 0 <= i < 4 ==> m.prg_banks@[i] == 0,
            m.mirroring == (if flags & 1 != 0 { NametableMirror::Vertical } else { NametableMirror::Horizontal }),
            m.irq_counter == 0 && !m.irq_counter_enabled && !m.irq_enabled && !m.irq_pending,
            m.vram@ == Seq::new(VRAM_SIZE as nat, |i: int| 0u8),
            m.cpu_ram@ == Seq::new(CPU_RAM_SIZE as nat, |i: int| 0u8),
            m.palette_ram@ == Seq::new(PALETTE_SIZE as nat, |i: int| 0x0Fu8),
            Self::built_by_new(flags, prg_banks_16k, chr_banks_8k, has_battery, sram_data, m),
    {
        let prg_rom = split_16k_to_8k(&prg_banks_16k);
        let prg_ram = ram_with_saved(PRG_RAM_SIZE, &sram_data);
        SunsoftFme7Mapper {
            controllers: new_controllers(),
            prg_rom,
            chr_8k: chr_banks_8k,
            prg_ram,
            has_battery,
            command: 0,
            chr_banks: [0; 8],
            prg_banks: [0; 4],
            work_ram_value: 0,
            mirroring: if flags & 1 != 0 { NametableMirror::Vertical } else { NametableMirror::Horizontal },
            irq_counter: 0,
            irq_counter_enabled: false,
            irq_enabled: false,
            irq_pending: false,
            vram: zeroed(VRAM_SIZE),
            cpu_ram: zeroed(CPU_RAM_SIZE),
            palette_ram: filled(PALETTE_SIZE, 0x0F),
        }
    }

    fn rom_byte_at(&self, bank: usize, off: usize) -> (r: u8)
        requires
            off < PRG_BANK_SIZE,
        ensures
            r == self.rom_byte(bank as int, off as int),
    {
        if bank < self.prg_rom.len() { self.prg_rom[bank][off] } else { 0 }
    }

    /// Writes the parameter of the current command: 0-7 CHR banks, 8 the
    /// $6000 window, 9-B PRG banks, C mirroring, D IRQ control (and
    /// acknowledge), E/F the counter's low/high byte.
    fn execute_command(&mut self, value: u8)
        requires
            old(self).wf(),
        ensures
            final(self).wf(),
            ({
                let c = old(self).command as int;
                &&& c < 8 ==> final(self).chr_banks@ == old(self).chr_banks@.update(c, value)
                &&& c >= 8 ==> final(self).chr_banks == old(self).chr_banks
                &&& final(self).work_ram_value == (if c == 8 { value } else { old(self).work_ram_value })
                &&& 9 <= c <= 0xB ==> final(self).prg_banks@ == old(self).prg_banks@.update(c - 8, value)
                &&& !(9 <= c <= 0xB) ==> final(self).prg_banks == old(self).prg_banks
                &&& final(self).mirroring == (if c == 0xC { s3_mirroring(value) } else { old(self).mirroring })
                &&& final(self).irq_pending == (if c == 0xD { false } else { old(self).irq_pending })
                &&& final(self).irq_counter_enabled == (if c == 0xD { value & 0x80 != 0 } else { old(self).irq_counter_enabled })
                &&& final(self).irq_enabled == (if c == 0xD { value & 0x01 != 0 } else { old(self).irq_enabled })
                &&& final(self).irq_counter == (if c == 0xE {
                    (old(self).irq_counter & 0xFF00) | (value as u16)
                } else if c == 0xF {
                    (old(self).irq_counter & 0x00FF) | ((value as u16) << 8u16)
                } else {
                    old(self).irq_counter
                })
            }),
            final(self).command == old(self).command,
            final(self).cpu_ram == old(self).cpu_ram,
            final(self).prg_ram == old(self).prg_ram,
            final(self).has_battery == old(self).has_battery,
            final(self).prg_rom == old(self).prg_rom,
            final(self).chr_8k == old(self).chr_8k,
            final(self).vram == old(self).vram,
            final(self).palette_ram == old(self).palette_ram,
            final(self).controllers == old(self).controllers,
    {
        let c = self.command;
        if c < 8 {
            self.chr_banks[c as usize] = value;
        } else if c == 8 {
            self.work_ram_value = value;
        } else if c <= 0xB {
            self.prg_banks[(c - 8) as usize] = value;
        } else if c == 0xC {
            let m = value & 3;
            self.mirroring = if m == 0 {
                NametableMirror::Vertical
            } else if m == 1 {
                NametableMirror::Horizontal
            } else if m == 2 {
                NametableMirror::Lower
            } else {
                NametableMirror::Higher
            };
        } else if c == 0xD {
            self.irq_pending = false;
            self.irq_counter_enabled = (value & 0x80) != 0;
            self.irq_enabled = (value & 0x01) != 0;
        } else if c == 0xE {
            self.irq_counter = (self.irq_counter & 0xFF00) | value as u16;
        } else if c == 0xF {
            self.irq_counter = (self.irq_counter & 0x00FF) | ((value as u16) << 8);
        }
    }

    pub fn cpu_read(&self, addr: u16) -> (r: u8)
        requires
            self.wf(),
        ensures
            r == self.spec_cpu_read(addr),
    {
        let len = self.prg_rom.len();
        let m = if len == 0 { 1 } else { len };
        let v = self.work_ram_value;
        if addr <= 0x1FFF {
            self.cpu_ram[(addr % 0x800) as usize]
        } else if 0x6000 <= addr && addr <= 0x7FFF {
            if v & 0x40 != 0 {
                if v & 0x80 != 0 { self.prg_ram[(addr - 0x6000) as usize] } else { 0 }
            } else {
                self.rom_byte_at((v & 0x3F) as usize % m, (addr - 0x6000) as usize)
            }
        } else if addr >= 0xE000 {
            self.rom_byte_at(len.saturating_sub(1), (addr - 0xE000) as usize)
        } else if addr >= 0x8000 {
            let slot = ((addr - 0x8000) / 0x2000 + 1) as usize;
            self.rom_byte_at((self.prg_banks[slot] & 0x3F) as usize % m, (addr % 0x2000) as usize)
        } else {
            0
        }
    }

    /// RAM; PRG RAM at $6000 when mapped and enabled; the command register
    /// at $8000-$9FFF and its parameter at $A000-$BFFF.
    pub fn cpu_write(&mut self, addr: u16, value: u8)
        requires
            old(self).wf(),
        ensures
            final(self).wf(),
            addr <= 0x1FFF ==> final(self).cpu_ram@ == old(self).cpu_ram@.update((addr as int) % 0x800, value),
            addr > 0x1FFF ==> final(self).cpu_ram == old(self).cpu_ram,
            0x6000 <= addr <= 0x7FFF && old(self).work_ram_value & 0xC0 == 0xC0
                ==> final(self).prg_ram@ == old(self).prg_ram@.update(addr - 0x6000, value),
            !(0x6000 <= addr <= 0x7FFF && old(self).work_ram_value & 0xC0 == 0xC0) ==> final(self).prg_ram == old(self).prg_ram,
            final(self).command == (if 0x8000 <= addr <= 0x9FFF { value & 0x0F } else { old(self).command }),
            !(0xA000 <= addr <= 0xBFFF) ==> final(self).chr_banks == old(self).chr_banks
                && final(self).prg_banks == old(self).prg_banks && final(self).work_ram_value == old(self).work_ram_value
                && final(self).mirroring == old(self).mirroring && final(self).irq_counter == old(self).irq_counter
                && final(self).irq_enabled == old(self).irq_enabled
                && final(self).irq_counter_enabled == old(self).irq_counter_enabled
                && final(self).irq_pending == old(self).irq_pending,
            final(self).prg_rom == old(self).prg_rom,
            final(self).chr_8k == old(self).chr_8k,
            final(self).vram == old(self).vram,
            final(self).palette_ram == old(self).palette_ram,
    {
        if addr <= 0x1FFF {
            self.cpu_ram.set((addr % 0x800) as usize, value);
        } else if 0x6000 <= addr && addr <= 0x7FFF {
            let v = self.work_ram_value;
            assert((v & 0x40 != 0 && v & 0x80 != 0) == (v & 0xC0 == 0xC0)) by (bit_vector);
            if (v & 0x40 != 0) && (v & 0x80 != 0) {
                self.prg_ram.set((addr - 0x6000) as usize, value);
            }
        } else if 0x8000 <= addr && addr <= 0x9FFF {
            self.command = value & 0x0F;
        } else if 0xA000 <= addr && addr <= 0xBFFF {
            self.execute_command(value);
        }
    }

    pub fn ppu_read(&self, addr: u16) -> (r: u8)
        requires
            self.wf(),
        ensures
            r == self.spec_ppu_read(addr),
    {
        if addr <= 0x1FFF {
            let n = 8 * self.chr_8k.len();
            if n == 0 {
                return 0;
            }
            let b = self.chr_banks[((addr / 1024) % 8) as usize] as usize % n;
            self.chr_8k[b / 8][(b % 8) * 1024 + (addr % 1024) as usize]
        } else if addr <= 0x3EFF {
            self.vram[mirror_nametable_addr(addr, self.mirroring) as usize]
        } else if addr <= 0x3FFF {
            self.palette_ram[palette_index(addr)]
        } else {
            0
        }
    }

    /// Nametable and palette writes; the pattern tables are ROM.
    pub fn ppu_write(&mut self, addr: u16, value: u8)
        requires
            old(self).wf(),
        ensures
            final(self).wf(),
            0x2000 <= addr <= 0x3EFF ==> final(self).vram@ == old(self).vram@.update(nt_offset(addr, old(self).mirroring), value),
            !(0x2000 <= addr <= 0x3EFF) ==> final(self).vram == old(self).vram,
            0x3F00 <= addr <= 0x3FFF ==> final(self).palette_ram@ == old(self).palette_ram@.update(palette_slot(addr), value),
            !(0x3F00 <= addr <= 0x3FFF) ==> final(self).palette_ram == old(self).palette_ram,
            final(self).cpu_ram == old(self).cpu_ram,
            final(self).prg_ram == old(self).prg_ram,
            final(self).chr_banks == old(self).chr_banks,
            final(self).prg_banks == old(self).prg_banks,
            final(self).mirroring == old(self).mirroring,
            final(self).prg_rom == old(self).prg_rom,
            final(self).chr_8k == old(self).chr_8k,
    {
        if 0x2000 <= addr && addr <= 0x3EFF {
            let i = mirror_nametable_addr(addr, self.mirroring) as usize;
            self.vram.set(i, value);
        } else if 0x3F00 <= addr && addr <= 0x3FFF {
            let i = palette_index(addr);
            self.palette_ram.set(i, value);
        }
    }

    /// While counting is on, the counter decrements every CPU cycle; wrapping
    /// past zero raises the IRQ if IRQs are enabled.
    pub fn cpu_cycle(&mut self)
        ensures
            !old(self).irq_counter_enabled ==> *final(self) == *old(self),
            old(self).irq_counter_enabled ==> ({
                let c = old(self).irq_counter.wrapping_sub(1);
                &&& final(self).irq_counter == c
                &&& final(self).irq_pending == (old(self).irq_pending || (c == 0xFFFF && old(self).irq_enabled))
            }),
            final(self).irq_counter_enabled == old(self).irq_counter_enabled,
            final(self).irq_enabled == old(self).irq_enabled,
            final(self).command == old(self).command,
            final(self).chr_banks == old(self).chr_banks,
            final(self).prg_banks == old(self).prg_banks,
            final(self).work_ram_value == old(self).work_ram_value,
            final(self).mirroring == old(self).mirroring,
            final(self).cpu_ram == old(self).cpu_ram,
            final(self).prg_ram == old(self).prg_ram,
            final(self).vram == old(self).vram,
            final(self).palette_ram == old(self).palette_ram,
            final(self).prg_rom == old(self).prg_rom,
            final(self).chr_8k == old(self).chr_8k,
    {
        if self.irq_counter_enabled {
            self.irq_counter = self.irq_counter.wrapping_sub(1);
            if self.irq_counter == 0xFFFF && self.irq_enabled {
                self.irq_pending = true;
            }
        }
    }

    pub fn code_start(&self) -> (r: u16)
        requires
            self.wf(),
        ensures
            r == word(self.spec_cpu_read(RESET_TARGET_ADDR), self.spec_cpu_read(0xFFFD)),
    {
        make_word(self.cpu_read(RESET_TARGET_ADDR), self.cpu_read(RESET_TARGET_ADDR + 1))
    }

    pub fn poll_irq(&self) -> (r: bool)
        ensures
            r == self.irq_pending,
    {
        self.irq_pending
    }

    /// The PRG RAM, for battery saves, when the cartridge has a battery.
    pub fn sram_data(&self) -> (r: Option<&[u8]>)
        ensures
            !self.has_battery ==> r is None,
            self.has_battery ==> (r matches Some(d) && d@ == self.prg_ram@),
    {
        if self.has_battery {
            Some(self.prg_ram.as_slice())
        } else {
            None
        }
    }

    pub fn mapper_id(&self) -> (r: u8)
        ensures
            r == 69,
    {
        69
    }
}

impl SunsoftFme7Mapper {
    /// The bytes `save_state` appends.
    pub open spec fn state_bytes(&self) -> Seq<u8> {
        self.cpu_ram@
            + self.prg_ram@
            + self.vram@
            + self.palette_ram@
            + self.chr_banks@
            + self.prg_banks@
            + enc_u8(self.command)
            + enc_u8(self.work_ram_value)
            + enc_u16(self.irq_counter)
            + enc_bool(self.irq_counter_enabled)
            + enc_bool(self.irq_enabled)
            + enc_bool(self.irq_pending)
            + enc_u8(mirror_code(self.mirroring))
            + controllers_bytes(self.controllers)
    }

    /// Length of the saved state.
    pub open spec fn state_len(&self) -> nat {
        (CPU_RAM_SIZE + PRG_RAM_SIZE + VRAM_SIZE + PALETTE_SIZE + 2 * CONTROLLER_STATE_LEN + 20) as nat
    }

    /// Every register that the state stores in fewer bits than it is held in
    /// fits in those bits.
    pub open spec fn fits(&self) -> bool {
        true
    }

    /// The stored bytes at `p` hold a state that this cartridge can take.
    pub open spec fn state_valid(&self, d: Seq<u8>, p: int) -> bool {
        &&& mirror_from_code(d[(p + CPU_RAM_SIZE + PRG_RAM_SIZE + VRAM_SIZE + PALETTE_SIZE + 19)]) is Some
    }

    /// What `load_state` answers for the bytes at `p`.
    pub open spec fn load_outcome(&self, d: Seq<u8>, p: int) -> Result<(), StateError> {
        if p + self.state_len() > d.len() {
            Err(StateError::UnexpectedEof)
        } else if !self.state_valid(d, p) {
            Err(StateError::InvalidValue)
        } else {
            Ok(())
        }
    }

    /// Every saved field holds what the bytes at `p` store.
    pub open spec fn loaded_from(&self, d: Seq<u8>, p: int) -> bool {
        &&& self.cpu_ram@ == d.subrange(p, p + CPU_RAM_SIZE)
        &&& self.prg_ram@ == d.subrange((p + CPU_RAM_SIZE), (p + CPU_RAM_SIZE) + PRG_RAM_SIZE)
        &&& self.vram@ == d.subrange((p + CPU_RAM_SIZE + PRG_RAM_SIZE), (p + CPU_RAM_SIZE + PRG_RAM_SIZE) + VRAM_SIZE)
        &&& self.palette_ram@ == d.subrange((p + CPU_RAM_SIZE + PRG_RAM_SIZE + VRAM_SIZE), (p + CPU_RAM_SIZE + PRG_RAM_SIZE + VRAM_SIZE) + PALETTE_SIZE)
        &&& self.chr_banks@ == d.subrange((p + CPU_RAM_SIZE + PRG_RAM_SIZE + VRAM_SIZE + PALETTE_SIZE), (p + CPU_RAM_SIZE + PRG_RAM_SIZE + VRAM_SIZE + PALETTE_SIZE) + 8)
        &&& self.prg_banks@ == d.subrange((p + CPU_RAM_SIZE + PRG_RAM_SIZE + VRAM_SIZE + PALETTE_SIZE + 8), (p + CPU_RAM_SIZE + PRG_RAM_SIZE + VRAM_SIZE + PALETTE_SIZE + 8) + 4)
        &&& self.command == d[(p + CPU_RAM_SIZE + PRG_RAM_SIZE + VRAM_SIZE + PALETTE_SIZE + 12)]
        &&& self.work_ram_value == d[(p + CPU_RAM_SIZE + PRG_RAM_SIZE + VRAM_SIZE + PALETTE_SIZE + 13)]
        &&& self.irq_counter == dec_u16_at(d, (p + CPU_RAM_SIZE + PRG_RAM_SIZE + VRAM_SIZE + PALETTE_SIZE + 14))
        &&& self.irq_counter_enabled == (d[(p + CPU_RAM_SIZE + PRG_RAM_SIZE + VRAM_SIZE + PALETTE_SIZE + 16)] != 0)
        &&& self.irq_enabled == (d[(p + CPU_RAM_SIZE + PRG_RAM_SIZE + VRAM_SIZE + PALETTE_SIZE + 17)] != 0)
        &&& self.irq_pending == (d[(p + CPU_RAM_SIZE + PRG_RAM_SIZE + VRAM_SIZE + PALETTE_SIZE + 18)] != 0)
        &&& self.mirroring == mirror_from_code(d[(p + CPU_RAM_SIZE + PRG_RAM_SIZE + VRAM_SIZE + PALETTE_SIZE + 19)])->0
        &&& self.controllers@[0] == controller_at(d, (p + CPU_RAM_SIZE + PRG_RAM_SIZE + VRAM_SIZE + PALETTE_SIZE + 20))
        &&& self.controllers@[1] == controller_at(d, (p + CPU_RAM_SIZE + PRG_RAM_SIZE + VRAM_SIZE + PALETTE_SIZE + 20) + CONTROLLER_STATE_LEN)
    }

    /// The two agree on every saved field.
    pub open spec fn same_state(&self, other: &Self) -> bool {
        &&& self.cpu_ram@ == other.cpu_ram@
        &&& self.prg_ram@ == other.prg_ram@
        &&& self.vram@ == other.vram@
        &&& self.palette_ram@ == other.palette_ram@
        &&& self.chr_banks@ == other.chr_banks@
        &&& self.prg_banks@ == other.prg_banks@
        &&& self.command == other.command
        &&& self.work_ram_value == other.work_ram_value
        &&& self.irq_counter == other.irq_counter
        &&& self.irq_counter_enabled == other.irq_counter_enabled
        &&& self.irq_enabled == other.irq_enabled
        &&& self.irq_pending == other.irq_pending
        &&& self.mirroring == other.mirroring
        &&& self.controllers@ == other.controllers@
    }

    /// The two agree on every field that the state does not store.
    pub open spec fn keeps_unsaved(&self, other: &Self) -> bool {
        &&& self.prg_rom == other.prg_rom
        &&& self.chr_8k == other.chr_8k
        &&& self.has_battery == other.has_battery
    }

    /// The two come from cartridges of the same shape.
    pub open spec fn same_layout(&self, other: &Self) -> bool {
        true
    }

    #[verifier::spinoff_prover]
    pub fn save_state(&self, w: &mut SavestateWriter)
        ensures
            final(w).buf@ == old(w).buf@ + self.state_bytes(),
    {
        let ghost b = w.buf@;
        let ghost s0 = self.cpu_ram@;
        let ghost s1 = s0 + self.prg_ram@;
        let ghost s2 = s1 + self.vram@;
        let ghost s3 = s2 + self.palette_ram@;
        let ghost s4 = s3 + self.chr_banks@;
        let ghost s5 = s4 + self.prg_banks@;
        let ghost s6 = s5 + enc_u8(self.command);
        let ghost s7 = s6 + enc_u8(self.work_ram_value);
        let ghost s8 = s7 + enc_u16(self.irq_counter);
        let ghost s9 = s8 + enc_bool(self.irq_counter_enabled);
        let ghost s10 = s9 + enc_bool(self.irq_enabled);
        let ghost s11 = s10 + enc_bool(self.irq_pending);
        let ghost s12 = s11 + enc_u8(mirror_code(self.mirroring));
        let ghost s13 = s12 + controllers_bytes(self.controllers);
        w.write_bytes(self.cpu_ram.as_slice());
        w.write_bytes(self.prg_ram.as_slice());
        proof {
            lemma_add_assoc(b, s0, self.prg_ram@);
        }
        w.write_bytes(self.vram.as_slice());
        proof {
            lemma_add_assoc(b, s1, self.vram@);
        }
        w.write_bytes(self.palette_ram.as_slice());
        proof {
            lemma_add_assoc(b, s2, self.palette_ram@);
        }
        w.write_bytes(self.chr_banks.as_slice());
        proof {
            lemma_add_assoc(b, s3, self.chr_banks@);
        }
        w.write_bytes(self.prg_banks.as_slice());
        proof {
            lemma_add_assoc(b, s4, self.prg_banks@);
        }
        w.write_u8(self.command);
        proof {
            lemma_add_assoc(b, s5, enc_u8(self.command));
        }
        w.write_u8(self.work_ram_value);
        proof {
            lemma_add_assoc(b, s6, enc_u8(self.work_ram_value));
        }
        w.write_u16(self.irq_counter);
        proof {
            lemma_add_assoc(b, s7, enc_u16(self.irq_counter));
        }
        w.write_bool(self.irq_counter_enabled);
        proof {
            lemma_add_assoc(b, s8, enc_bool(self.irq_counter_enabled));
        }
        w.write_bool(self.irq_enabled);
        proof {
            lemma_add_assoc(b, s9, enc_bool(self.irq_enabled));
        }
        w.write_bool(self.irq_pending);
        proof {
            lemma_add_assoc(b, s10, enc_bool(self.irq_pending));
        }
        save_mirroring(w, self.mirroring);
        proof {
            lemma_add_assoc(b, s11, enc_u8(mirror_code(self.mirroring)));
        }
        save_controllers(w, &self.controllers);
        proof {
            lemma_add_assoc(b, s12, controllers_bytes(self.controllers));
        }
    }

    /// Restores a state written by `save_state`. Nothing changes unless the
    /// whole state is there and holds values this cartridge can take.
    #[verifier::spinoff_prover]
    pub fn load_state(&mut self, r: &mut SavestateReader) -> (res: Result<(), StateError>)
        requires
            old(self).wf(),
            old(r).wf(),
        ensures
            final(r).wf(),
            final(r).data@ == old(r).data@,
            res == old(self).load_outcome(old(r).data@, old(r).pos as int),
            res is Err ==> *final(self) == *old(self) && final(r).pos == old(r).pos,
            res is Ok ==> final(self).wf() && final(self).loaded_from(old(r).data@, old(r).pos as int)
                && final(self).keeps_unsaved(&*old(self)) && final(self).same_layout(&*old(self))
                && final(r).pos == old(r).pos + old(self).state_len(),
    {
        let ghost d = r.data@;
        let ghost p = r.pos as int;
        let start = r.pos;
        if r.remaining_len() < CPU_RAM_SIZE + PRG_RAM_SIZE + VRAM_SIZE + PALETTE_SIZE + 2 * CONTROLLER_STATE_LEN + 20 {
            return Err(StateError::UnexpectedEof);
        }
        let cpu_ram = r.take_bytes(CPU_RAM_SIZE);
        let prg_ram = r.take_bytes(PRG_RAM_SIZE);
        let vram = r.take_bytes(VRAM_SIZE);
        let palette_ram = r.take_bytes(PALETTE_SIZE);
        let chr_banks_bytes = r.take_bytes(8);
        let mut chr_banks = self.chr_banks;
        copy_into_array(&mut chr_banks, &chr_banks_bytes);
        let prg_banks_bytes = r.take_bytes(4);
        let mut prg_banks = self.prg_banks;
        copy_into_array(&mut prg_banks, &prg_banks_bytes);
        let command = r.take_u8();
        let work_ram_value = r.take_u8();
        let irq_counter = r.take_u16();
        let irq_counter_enabled = r.take_bool();
        let irq_enabled = r.take_bool();
        let irq_pending = r.take_bool();
        let mirroring_code = r.take_u8();
        let controllers = take_controllers(r);
        let mirroring = match mirroring_from_code(mirroring_code) {
            Some(m) => m,
            None => {
                r.rewind(start);
                return Err(StateError::InvalidValue);
            },
        };
        self.cpu_ram = cpu_ram;
        self.prg_ram = prg_ram;
        self.vram = vram;
        self.palette_ram = palette_ram;
        self.chr_banks = chr_banks;
        self.prg_banks = prg_banks;
        self.command = command;
        self.work_ram_value = work_ram_value;
        self.irq_counter = irq_counter;
        self.irq_counter_enabled = irq_counter_enabled;
        self.irq_enabled = irq_enabled;
        self.irq_pending = irq_pending;
        self.mirroring = mirroring;
        self.controllers = controllers;
        Ok(())
    }

    /// Saving a state and loading it into a cartridge of the same shape
    /// succeeds and restores every saved field.
    #[verifier::spinoff_prover]
    pub proof fn lemma_state_roundtrip(o: Self, m: Self, n: Self, d: Seq<u8>, p: int)
        requires
            o.wf(),
            m.wf(),
            m.fits(),
            o.same_layout(&m),
            n.same_layout(&m),
            stored_at(d, p, m.state_bytes()),
        ensures
            o.load_outcome(d, p) == Ok::<(), StateError>(()),
            n.loaded_from(d, p) ==> n.same_state(&m),
    {
        let s0 = m.cpu_ram@;
        let s1 = s0 + m.prg_ram@;
        let s2 = s1 + m.vram@;
        let s3 = s2 + m.palette_ram@;
        let s4 = s3 + m.chr_banks@;
        let s5 = s4 + m.prg_banks@;
        let s6 = s5 + enc_u8(m.command);
        let s7 = s6 + enc_u8(m.work_ram_value);
        let s8 = s7 + enc_u16(m.irq_counter);
        let s9 = s8 + enc_bool(m.irq_counter_enabled);
        let s10 = s9 + enc_bool(m.irq_enabled);
        let s11 = s10 + enc_bool(m.irq_pending);
        let s12 = s11 + enc_u8(mirror_code(m.mirroring));
        let s13 = s12 + controllers_bytes(m.controllers);
        lemma_stored_split(d, p, s12, controllers_bytes(m.controllers));
        lemma_stored_split(d, p, s11, enc_u8(mirror_code(m.mirroring)));
        lemma_stored_split(d, p, s10, enc_bool(m.irq_pending));
        lemma_stored_split(d, p, s9, enc_bool(m.irq_enabled));
        lemma_stored_split(d, p, s8, enc_bool(m.irq_counter_enabled));
        lemma_stored_split(d, p, s7, enc_u16(m.irq_counter));
        lemma_stored_split(d, p, s6, enc_u8(m.work_ram_value));
        lemma_stored_split(d, p, s5, enc_u8(m.command));
        lemma_stored_split(d, p, s4, m.prg_banks@);
        lemma_stored_split(d, p, s3, m.chr_banks@);
        lemma_stored_split(d, p, s2, m.palette_ram@);
        lemma_stored_split(d, p, s1, m.vram@);
        lemma_stored_split(d, p, s0, m.prg_ram@);
        lemma_stored_u8(d, (p + CPU_RAM_SIZE + PRG_RAM_SIZE + VRAM_SIZE + PALETTE_SIZE + 12), m.command);
        lemma_stored_u8(d, (p + CPU_RAM_SIZE + PRG_RAM_SIZE + VRAM_SIZE + PALETTE_SIZE + 13), m.work_ram_value);
        lemma_stored_u16(d, (p + CPU_RAM_SIZE + PRG_RAM_SIZE + VRAM_SIZE + PALETTE_SIZE + 14), m.irq_counter);
        lemma_stored_bool(d, (p + CPU_RAM_SIZE + PRG_RAM_SIZE + VRAM_SIZE + PALETTE_SIZE + 16), m.irq_counter_enabled);
        lemma_stored_bool(d, (p + CPU_RAM_SIZE + PRG_RAM_SIZE + VRAM_SIZE + PALETTE_SIZE + 17), m.irq_enabled);
        lemma_stored_bool(d, (p + CPU_RAM_SIZE + PRG_RAM_SIZE + VRAM_SIZE + PALETTE_SIZE + 18), m.irq_pending);
        lemma_stored_u8(d, (p + CPU_RAM_SIZE + PRG_RAM_SIZE + VRAM_SIZE + PALETTE_SIZE + 19), mirror_code(m.mirroring));
        lemma_mirror_code_roundtrip(m.mirroring);
        lemma_stored_controllers(d, (p + CPU_RAM_SIZE + PRG_RAM_SIZE + VRAM_SIZE + PALETTE_SIZE + 20), m.controllers);
        if n.loaded_from(d, p) {
            assert(n.controllers@ =~= m.controllers@);
        }
    }
}

/// The last 8KB PRG bank is fixed at $E000-$FFFF, where the CPU finds its
/// vectors, whatever the bank registers and the $6000 window hold.
pub proof fn lemma_fme7_fixed_last_bank(m: SunsoftFme7Mapper, addr: u16)
    requires
        m.prg_rom@.len() > 0,
        0xE000 <= addr,
    ensures
        m.spec_cpu_read(addr) == m.prg_rom@[m.prg_rom@.len() - 1][addr - 0xE000],
{
}

} // verus!
