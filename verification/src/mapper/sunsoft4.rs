//! Sunsoft-4 (mapper 68): a switchable 16KB PRG bank before a fixed last one,
//! PRG RAM with an enable bit, four 2KB CHR banks, and nametables that can
//! be taken from 1KB pages of CHR ROM.

use vstd::prelude::*;
use crate::bus::{NametableMirror, CPU_RAM_SIZE, VRAM_SIZE, PALETTE_SIZE, RESET_TARGET_ADDR, nt_offset, mirror_nametable_addr, palette_slot, palette_index, word, make_word};
use crate::ppu_bus::{zeroed, filled};
use crate::controller::Controller;
use crate::mapper::common::{new_controllers, ram_with_saved};
use crate::mapper::irem_g101::sat_sub;

use crate::savestate::{SavestateWriter, SavestateReader, StateError, enc_u8, enc_bool, stored_at, lemma_add_assoc, lemma_stored_split, lemma_stored_u8, lemma_stored_bool, copy_into_array};
use crate::controller::{controllers_bytes, controller_at, save_controllers, take_controllers, lemma_stored_controllers, CONTROLLER_STATE_LEN};

verus! {

pub const PRG_BANK_SIZE: usize = 0x4000;
pub const CHR_BANK_SIZE: usize = 0x0800;
pub const NT_BANK_SIZE: usize = 0x0400;
pub const PRG_RAM_8K: usize = 0x2000;

pub struct Sunsoft4Mapper {
    pub controllers: [Controller; 2],
    pub prg_rom: Vec<[u8; PRG_BANK_SIZE]>,
    pub chr_8k: Vec<[u8; 8192]>,
    pub prg_ram: Vec<u8>,
    pub prg_ram_enabled: bool,
    pub has_battery: bool,
    pub chr_banks: [u8; 4],
    pub nt_banks: [u8; 2],
    pub prg_bank: u8,
    /// Mirroring mode in the low two bits: vertical, horizontal, lower,
    /// upper.
    pub mirroring: u8,
    pub use_chr_nametables: bool,
    pub vram: Vec<u8>,
    pub cpu_ram: Vec<u8>,
    pub palette_ram: Vec<u8>,
}

/// The mirroring of a mode value.
pub open spec fn s4_mirroring(mode: u8) -> NametableMirror {
    let m = mode & 3;
    if m == 0 {
        NametableMirror::Vertical
    } else if m == 1 {
        NametableMirror::Horizontal
    } else if m == 2 {
        NametableMirror::Lower
    } else {
        NametableMirror::Higher
    }
}

/// Which nametable register a logical nametable uses in a mirroring mode.
pub open spec fn nt_register(mode: u8, nt: int) -> int {
    let m = mode & 3;
    if m == 0 {
        nt % 2
    } else if m == 1 {
        if nt < 2 { 0 } else { 1 }
    } else if m == 2 {
        0
    } else {
        1
    }
}

impl Sunsoft4Mapper {
    pub open spec fn wf(&self) -> bool {
        &&& self.cpu_ram@.len() == CPU_RAM_SIZE
        &&& self.prg_ram@.len() == PRG_RAM_8K
        &&& self.vram@.len() == VRAM_SIZE
        &&& self.palette_ram@.len() == PALETTE_SIZE
        &&& 8 * self.chr_8k@.len() <= usize::MAX
    }

    pub open spec fn spec_cpu_read(&self, addr: u16) -> u8 {
        let len = self.prg_rom@.len() as int;
        let m: int = if len == 0 { 1 } else { len };
        if addr <= 0x1FFF {
            self.cpu_ram@[(addr as int) % 0x800]
        } else if 0x6000 <= addr <= 0x7FFF {
            if self.prg_ram_enabled { self.prg_ram@[addr - 0x6000] } else { 0 }
        } else if addr >= 0x8000 {
            let bank = if addr <= 0xBFFF { self.prg_bank as int % m } else { sat_sub(len, 1) };
            if bank < len { self.prg_rom@[bank][(addr as int) % 0x4000] } else { 0 }
        } else {
            0
        }
    }

    pub open spec fn spec_ppu_read(&self, addr: u16) -> u8 {
        let n2 = 4 * self.chr_8k@.len() as int;
        let n1 = 8 * self.chr_8k@.len() as int;
        if addr <= 0x1FFF {
            if n2 == 0 {
                0
            } else {
                let b = self.chr_banks@[((addr as int) / 0x800) % 4] as int % n2;
                self.chr_8k@[b / 4][(b % 4) * 2048 + (addr as int) % 2048]
            }
        } else if addr <= 0x3EFF {
            if self.use_chr_nametables {
                if n1 == 0 {
                    0
                } else {
                    let reg = nt_register(self.mirroring, ((addr as int) / 1024) % 4);
                    let b = self.nt_banks@[reg] as int % n1;
                    self.chr_8k@[b / 8][(b % 8) * 1024 + (addr as int) % 1024]
                }
            } else {
                self.vram@[nt_offset(addr, s4_mirroring(self.mirroring))]
            }
        } else if addr <= 0x3FFF {
            self.palette_ram@[palette_slot(addr)]
        } else {
            0
        }
    }

    /// What `new` builds from its arguments.
    pub open spec fn built_by_new(flags: u8, prg_rom: Vec<[u8; PRG_BANK_SIZE]>, chr_banks_8k: Vec<[u8; 8192]>, has_battery: bool, sram_data: Option<Vec<u8>>, m: Sunsoft4Mapper) -> bool {
        &&& (m.wf())
        &&& (m.prg_rom@ == prg_rom@)
        &&& (m.chr_8k@ == chr_banks_8k@)
        &&& (forall|i: int| 0 <= i < PRG_RAM_8K ==> #[trigger] m.prg_ram@[i] == (match sram_data {
                Some(d) => if i < d@.len() { d@[i] } else { 0u8 },
                None => 0u8,
            }))
        &&& (!m.prg_ram_enabled)
        &&& (m.has_battery == has_battery)
        &&& (m.chr_banks@ == seq![0u8, 0, 0, 0])
        &&& (m.nt_banks@ == seq![0x80u8, 0x80])
        &&& (m.prg_bank == 0)
        &&& (m.mirroring == (if flags & 1 != 0 { 0u8 } else { 1u8 }))
        &&& (!m.use_chr_nametables)
        &&& (m.vram@ == Seq::new(VRAM_SIZE as nat, |i: int| 0u8))
        &&& (m.cpu_ram@ == Seq::new(CPU_RAM_SIZE as nat, |i: int| 0u8))
        &&& (m.palette_ram@ == Seq::new(PALETTE_SIZE as nat, |i: int| 0x0Fu8))
    }

    /// PRG RAM starts disabled, filled from the saved data; nametables start
    /// in nametable RAM with flags 6 bit 0 choosing vertical mirroring.
    pub fn new(flags: u8, prg_rom: Vec<[u8; PRG_BANK_SIZE]>, chr_banks_8k: Vec<[u8; 8192]>, has_battery: bool, sram_data: Option<Vec<u8>>) -> (m: Sunsoft4Mapper)
        requires
            8 * chr_banks_8k@.len() <= usize::MAX,
        ensures
            m.wf(),
            m.prg_rom@ == prg_rom@,
            m.chr_8k@ == chr_banks_8k@,
            forall|i: int| 0 <= i < PRG_RAM_8K ==> #[trigger] m.prg_ram@[i] == (match sram_data {
                Some(d) => if i < d@.len() { d@[i] } else { 0u8 },
                None => 0u8,
            }),
            !m.prg_ram_enabled,
            m.has_battery == has_battery,
            m.chr_banks@ == seq![0u8, 0, 0, 0],
            m.nt_banks@ == seq![0x80u8, 0x80],
            m.prg_bank == 0,
            m.mirroring == (if flags & 1 != 0 { 0u8 } else { 1u8 }),
            !m.use_chr_nametables,
            m.vram@ == Seq::new(VRAM_SIZE as nat, |i: int| 0u8),
            m.cpu_ram@ == Seq::new(CPU_RAM_SIZE as nat, |i: int| 0u8),
            m.palette_ram@ == Seq::new(PALETTE_SIZE as nat, |i: int| 0x0Fu8),
            Self::built_by_new(flags, prg_rom, chr_banks_8k, has_battery, sram_data, m),
    {
        let prg_ram = ram_with_saved(PRG_RAM_8K, &sram_data);
        let m = Sunsoft4Mapper {
            controllers: new_controllers(),
            prg_rom,
            chr_8k: chr_banks_8k,
            prg_ram,
            prg_ram_enabled: false,
            has_battery,
            chr_banks: [0; 4],
            nt_banks: [0x80; 2],
            prg_bank: 0,
            mirroring: if flags & 1 != 0 { 0 } else { 1 },
            use_chr_nametables: false,
            vram: zeroed(VRAM_SIZE),
            cpu_ram: zeroed(CPU_RAM_SIZE),
            palette_ram: filled(PALETTE_SIZE, 0x0F),
        };
        assert(m.chr_banks@ == seq![0u8, 0, 0, 0]);
        assert(m.nt_banks@ == seq![0x80u8, 0x80]);
        m
    }

    /// The nametable mirroring of the current mode.
    pub fn mirroring_mode(&self) -> (r: NametableMirror)
        ensures
            r == s4_mirroring(self.mirroring),
    {
        let m = self.mirroring & 3;
        if m == 0 {
            NametableMirror::Vertical
        } else if m == 1 {
            NametableMirror::Horizontal
        } else if m == 2 {
            NametableMirror::Lower
        } else {
            NametableMirror::Higher
        }
    }

    fn read_chr(&self, addr: u16) -> (r: u8)
        requires
            self.wf(),
            addr <= 0x1FFF,
        ensures
            r == self.spec_ppu_read(addr),
    {
        let n2 = 4 * self.chr_8k.len();
        if n2 == 0 {
            return 0;
        }
        let b = self.chr_banks[((addr / 0x800) % 4) as usize] as usize % n2;
        self.chr_8k[b / 4][(b % 4) * 2048 + (addr % 2048) as usize]
    }

    fn read_nametable(&self, addr: u16) -> (r: u8)
        requires
            self.wf(),
            0x2000 <= addr <= 0x3EFF,
        ensures
            r == self.spec_ppu_read(addr),
    {
        if self.use_chr_nametables {
            let n1 = 8 * self.chr_8k.len();
            if n1 == 0 {
                return 0;
            }
            let nt = ((addr / 1024) % 4) as usize;
            let mode = self.mirroring & 3;
            let reg: usize = if mode == 0 {
                nt % 2
            } else if mode == 1 {
                if nt < 2 { 0 } else { 1 }
            } else if mode == 2 {
                0
            } else {
                1
            };
            let b = self.nt_banks[reg] as usize % n1;
            self.chr_8k[b / 8][(b % 8) * 1024 + (addr % 1024) as usize]
        } else {
            self.vram[mirror_nametable_addr(addr, self.mirroring_mode()) as usize]
        }
    }

    pub fn cpu_read(&self, addr: u16) -> (r: u8)
        requires
            self.wf(),
        ensures
            r == self.spec_cpu_read(addr),
    {
        if addr <= 0x1FFF {
            return self.cpu_ram[(addr % 0x800) as usize];
        }
        if 0x6000 <= addr && addr <= 0x7FFF {
            return if self.prg_ram_enabled { self.prg_ram[(addr - 0x6000) as usize] } else { 0 };
        }
        if addr < 0x8000 {
            return 0;
        }
        let len = self.prg_rom.len();
        let m = if len == 0 { 1 } else { len };
        let bank = if addr <= 0xBFFF { self.prg_bank as usize % m } else { len.saturating_sub(1) };
        if bank < len {
            self.prg_rom[bank][(addr % 0x4000) as usize]
        } else {
            0
        }
    }

    /// $8000-$B000: CHR banks; $C000/$D000: nametable pages (bit 7 forced);
    /// $E000: mirroring mode and CHR-ROM nametables; $F000: PRG bank and
    /// PRG RAM enable.
    pub fn cpu_write(&mut self, addr: u16, value: u8)
        requires
            old(self).wf(),
        ensures
            final(self).wf(),
            addr <= 0x1FFF ==> final(self).cpu_ram@ == old(self).cpu_ram@.update((addr as int) % 0x800, value),
            addr > 0x1FFF ==> final(self).cpu_ram == old(self).cpu_ram,
            0x6000 <= addr <= 0x7FFF && old(self).prg_ram_enabled ==> final(self).prg_ram@ == old(self).prg_ram@.update(addr - 0x6000, value),
            !(0x6000 <= addr <= 0x7FFF && old(self).prg_ram_enabled) ==> final(self).prg_ram == old(self).prg_ram,
            0x8000 <= addr <= 0xBFFF ==> final(self).chr_banks@ == old(self).chr_banks@.update(((addr as int) - 0x8000) / 0x1000, value),
            !(0x8000 <= addr <= 0xBFFF) ==> final(self).chr_banks == old(self).chr_banks,
            0xC000 <= addr <= 0xDFFF ==> final(self).nt_banks@ == old(self).nt_banks@.update(((addr as int) - 0xC000) / 0x1000, value | 0x80),
            !(0xC000 <= addr <= 0xDFFF) ==> final(self).nt_banks == old(self).nt_banks,
            final(self).mirroring == (if 0xE000 <= addr <= 0xEFFF { value & 3 } else { old(self).mirroring }),
            final(self).use_chr_nametables == (if 0xE000 <= addr <= 0xEFFF { value & 0x10 != 0 } else { old(self).use_chr_nametables }),
            final(self).prg_bank == (if addr >= 0xF000 { value & 0x0F } else { old(self).prg_bank }),
            final(self).prg_ram_enabled == (if addr >= 0xF000 { value & 0x10 != 0 } else { old(self).prg_ram_enabled }),
            final(self).has_battery == old(self).has_battery,
            final(self).prg_rom == old(self).prg_rom,
            final(self).chr_8k == old(self).chr_8k,
            final(self).vram == old(self).vram,
            final(self).palette_ram == old(self).palette_ram,
            final(self).controllers == old(self).controllers,
    {
        if addr <= 0x1FFF {
            self.cpu_ram.set((addr % 0x800) as usize, value);
        } else if 0x6000 <= addr && addr <= 0x7FFF {
            if self.prg_ram_enabled {
                self.prg_ram.set((addr - 0x6000) as usize, value);
            }
        } else if 0x8000 <= addr && addr <= 0xBFFF {
            self.chr_banks[((addr - 0x8000) / 0x1000) as usize] = value;
        } else if 0xC000 <= addr && addr <= 0xDFFF {
            self.nt_banks[((addr - 0xC000) / 0x1000) as usize] = value | 0x80;
        } else if 0xE000 <= addr && addr <= 0xEFFF {
            self.mirroring = value & 3;
            self.use_chr_nametables = (value & 0x10) != 0;
        } else if addr >= 0xF000 {
            self.prg_bank = value & 0x0F;
            self.prg_ram_enabled = (value & 0x10) != 0;
        }
    }

    pub fn ppu_read(&self, addr: u16) -> (r: u8)
        requires
            self.wf(),
        ensures
            r == self.spec_ppu_read(addr),
    {
        if addr <= 0x1FFF {
            self.read_chr(addr)
        } else if addr <= 0x3EFF {
            self.read_nametable(addr)
        } else if addr <= 0x3FFF {
            self.palette_ram[palette_index(addr)]
        } else {
            0
        }
    }

    /// Nametable RAM takes writes only while CHR-ROM nametables are off.
    pub fn ppu_write(&mut self, addr: u16, value: u8)
        requires
            old(self).wf(),
        ensures
            final(self).wf(),
            0x2000 <= addr <= 0x3EFF && !old(self).use_chr_nametables ==> final(self).vram@ == old(self).vram@.update(
                nt_offset(addr, s4_mirroring(old(self).mirroring)), value),
            !(0x2000 <= addr <= 0x3EFF && !old(self).use_chr_nametables) ==> final(self).vram == old(self).vram,
            0x3F00 <= addr <= 0x3FFF ==> final(self).palette_ram@ == old(self).palette_ram@.update(palette_slot(addr), value),
            !(0x3F00 <= addr <= 0x3FFF) ==> final(self).palette_ram == old(self).palette_ram,
            final(self).cpu_ram == old(self).cpu_ram,
            final(self).prg_ram == old(self).prg_ram,
            final(self).chr_banks == old(self).chr_banks,
            final(self).nt_banks == old(self).nt_banks,
            final(self).mirroring == old(self).mirroring,
            final(self).use_chr_nametables == old(self).use_chr_nametables,
            final(self).prg_rom == old(self).prg_rom,
            final(self).chr_8k == old(self).chr_8k,
    {
        if 0x2000 <= addr && addr <= 0x3EFF {
            if !self.use_chr_nametables {
                let i = mirror_nametable_addr(addr, self.mirroring_mode()) as usize;
                self.vram.set(i, value);
            }
        } else if 0x3F00 <= addr && addr <= 0x3FFF {
            let i = palette_index(addr);
            self.palette_ram.set(i, value);
        }
    }

    pub fn code_start(&self) -> (r: u16)
        requires
            self.wf(),
        ensures
            r == word(self.spec_cpu_read(RESET_TARGET_ADDR), self.spec_cpu_read(0xFFFD)),
    {
        make_word(self.cpu_read(RESET_TARGET_ADDR), self.cpu_read(RESET_TARGET_ADDR + 1))
    }

    pub fn poll_irq(&self) -> (r: bool)
        ensures
            !r,
    {
        false
    }

    /// The PRG RAM, for battery saves, when the cartridge has a battery.
    pub fn sram_data(&self) -> (r: Option<&[u8]>)
        ensures
            !self.has_battery ==> r is None,
            self.has_battery ==> (r matches Some(d) && d@ == self.prg_ram@),
    {
        if self.has_battery {
            Some(self.prg_ram.as_slice())
        } else {
            None
        }
    }

    pub fn mapper_id(&self) -> (r: u8)
        ensures
            r == 68,
    {
        68
    }
}

impl Sunsoft4Mapper {
    /// The bytes `save_state` appends.
    pub open spec fn state_bytes(&self) -> Seq<u8> {
        self.cpu_ram@
            + self.prg_ram@
            + self.vram@
            + self.palette_ram@
            + self.chr_banks@
            + self.nt_banks@
            + enc_u8(self.prg_bank)
            + enc_u8(self.mirroring)
            + enc_bool(self.use_chr_nametables)
            + enc_bool(self.prg_ram_enabled)
            + controllers_bytes(self.controllers)
    }

    /// Length of the saved state.
    pub open spec fn state_len(&self) -> nat {
        (CPU_RAM_SIZE + PRG_RAM_8K + VRAM_SIZE + PALETTE_SIZE + 2 * CONTROLLER_STATE_LEN + 10) as nat
    }

    /// Every register that the state stores in fewer bits than it is held in
    /// fits in those bits.
    pub open spec fn fits(&self) -> bool {
        true
    }

    /// The stored bytes at `p` hold a state that this cartridge can take.
    pub open spec fn state_valid(&self, d: Seq<u8>, p: int) -> bool {
        true
    }

    /// What `load_state` answers for the bytes at `p`.
    pub open spec fn load_outcome(&self, d: Seq<u8>, p: int) -> Result<(), StateError> {
        if p + self.state_len() > d.len() {
            Err(StateError::UnexpectedEof)
        } else if !self.state_valid(d, p) {
            Err(StateError::InvalidValue)
        } else {
            Ok(())
        }
    }

    /// Every saved field holds what the bytes at `p` store.
    pub open spec fn loaded_from(&self, d: Seq<u8>, p: int) -> bool {
        &&& self.cpu_ram@ == d.subrange(p, p + CPU_RAM_SIZE)
        &&& self.prg_ram@ == d.subrange((p + CPU_RAM_SIZE), (p + CPU_RAM_SIZE) + PRG_RAM_8K)
        &&& self.vram@ == d.subrange((p + CPU_RAM_SIZE + PRG_RAM_8K), (p + CPU_RAM_SIZE + PRG_RAM_8K) + VRAM_SIZE)
        &&& self.palette_ram@ == d.subrange((p + CPU_RAM_SIZE + PRG_RAM_8K + VRAM_SIZE), (p + CPU_RAM_SIZE + PRG_RAM_8K + VRAM_SIZE) + PALETTE_SIZE)
        &&& self.chr_banks@ == d.subrange((p + CPU_RAM_SIZE + PRG_RAM_8K + VRAM_SIZE + PALETTE_SIZE), (p + CPU_RAM_SIZE + PRG_RAM_8K + VRAM_SIZE + PALETTE_SIZE) + 4)
        &&& self.nt_banks@ == d.subrange((p + CPU_RAM_SIZE + PRG_RAM_8K + VRAM_SIZE + PALETTE_SIZE + 4), (p + CPU_RAM_SIZE + PRG_RAM_8K + VRAM_SIZE + PALETTE_SIZE + 4) + 2)
        &&& self.prg_bank == d[(p + CPU_RAM_SIZE + PRG_RAM_8K + VRAM_SIZE + PALETTE_SIZE + 6)]
        &&& self.mirroring == d[(p + CPU_RAM_SIZE + PRG_RAM_8K + VRAM_SIZE + PALETTE_SIZE + 7)]
        &&& self.use_chr_nametables == (d[(p + CPU_RAM_SIZE + PRG_RAM_8K + VRAM_SIZE + PALETTE_SIZE + 8)] != 0)
        &&& self.prg_ram_enabled == (d[(p + CPU_RAM_SIZE + PRG_RAM_8K + VRAM_SIZE + PALETTE_SIZE + 9)] != 0)
        &&& self.controllers@[0] == controller_at(d, (p + CPU_RAM_SIZE + PRG_RAM_8K + VRAM_SIZE + PALETTE_SIZE + 10))
        &&& self.controllers@[1] == controller_at(d, (p + CPU_RAM_SIZE + PRG_RAM_8K + VRAM_SIZE + PALETTE_SIZE + 10) + CONTROLLER_STATE_LEN)
    }

    /// The two agree on every saved field.
    pub open spec fn same_state(&self, other: &Self) -> bool {
        &&& self.cpu_ram@ == other.cpu_ram@
        &&& self.prg_ram@ == other.prg_ram@
        &&& self.vram@ == other.vram@
        &&& self.palette_ram@ == other.palette_ram@
        &&& self.chr_banks@ == other.chr_banks@
        &&& self.nt_banks@ == other.nt_banks@
        &&& self.prg_bank == other.prg_bank
        &&& self.mirroring == other.mirroring
        &&& self.use_chr_nametables == other.use_chr_nametables
        &&& self.prg_ram_enabled == other.prg_ram_enabled
        &&& self.controllers@ == other.controllers@
    }

    /// The two agree on every field that the state does not store.
    pub open spec fn keeps_unsaved(&self, other: &Self) -> bool {
        &&& self.prg_rom == other.prg_rom
        &&& self.chr_8k == other.chr_8k
        &&& self.has_battery == other.has_battery
    }

    /// The two come from cartridges of the same shape.
    pub open spec fn same_layout(&self, other: &Self) -> bool {
        true
    }

    #[verifier::spinoff_prover]
    pub fn save_state(&self, w: &mut SavestateWriter)
        ensures
            final(w).buf@ == old(w).buf@ + self.state_bytes(),
    {
        let ghost b = w.buf@;
        let ghost s0 = self.cpu_ram@;
        let ghost s1 = s0 + self.prg_ram@;
        let ghost s2 = s1 + self.vram@;
        let ghost s3 = s2 + self.palette_ram@;
        let ghost s4 = s3 + self.chr_banks@;
        let ghost s5 = s4 + self.nt_banks@;
        let ghost s6 = s5 + enc_u8(self.prg_bank);
        let ghost s7 = s6 + enc_u8(self.mirroring);
        let ghost s8 = s7 + enc_bool(self.use_chr_nametables);
        let ghost s9 = s8 + enc_bool(self.prg_ram_enabled);
        let ghost s10 = s9 + controllers_bytes(self.controllers);
        w.write_bytes(self.cpu_ram.as_slice());
        w.write_bytes(self.prg_ram.as_slice());
        proof {
            lemma_add_assoc(b, s0, self.prg_ram@);
        }
        w.write_bytes(self.vram.as_slice());
        proof {
            lemma_add_assoc(b, s1, self.vram@);
        }
        w.write_bytes(self.palette_ram.as_slice());
        proof {
            lemma_add_assoc(b, s2, self.palette_ram@);
        }
        w.write_bytes(self.chr_banks.as_slice());
        proof {
            lemma_add_assoc(b, s3, self.chr_banks@);
        }
        w.write_bytes(self.nt_banks.as_slice());
        proof {
            lemma_add_assoc(b, s4, self.nt_banks@);
        }
        w.write_u8(self.prg_bank);
        proof {
            lemma_add_assoc(b, s5, enc_u8(self.prg_bank));
        }
        w.write_u8(self.mirroring);
        proof {
            lemma_add_assoc(b, s6, enc_u8(self.mirroring));
        }
        w.write_bool(self.use_chr_nametables);
        proof {
            lemma_add_assoc(b, s7, enc_bool(self.use_chr_nametables));
        }
        w.write_bool(self.prg_ram_enabled);
        proof {
            lemma_add_assoc(b, s8, enc_bool(self.prg_ram_enabled));
        }
        save_controllers(w, &self.controllers);
        proof {
            lemma_add_assoc(b, s9, controllers_bytes(self.controllers));
        }
    }

    /// Restores a state written by `save_state`. Nothing changes unless the
    /// whole state is there and holds values this cartridge can take.
    #[verifier::spinoff_prover]
    pub fn load_state(&mut self, r: &mut SavestateReader) -> (res: Result<(), StateError>)
        requires
            old(self).wf(),
            old(r).wf(),
        ensures
            final(r).wf(),
            final(r).data@ == old(r).data@,
            res == old(self).load_outcome(old(r).data@, old(r).pos as int),
            res is Err ==> *final(self) == *old(self) && final(r).pos == old(r).pos,
            res is Ok ==> final(self).wf() && final(self).loaded_from(old(r).data@, old(r).pos as int)
                && final(self).keeps_unsaved(&*old(self)) && final(self).same_layout(&*old(self))
                && final(r).pos == old(r).pos + old(self).state_len(),
    {
        let ghost d = r.data@;
        let ghost p = r.pos as int;
        let start = r.pos;
        if r.remaining_len() < CPU_RAM_SIZE + PRG_RAM_8K + VRAM_SIZE + PALETTE_SIZE + 2 * CONTROLLER_STATE_LEN + 10 {
            return Err(StateError::UnexpectedEof);
        }
        let cpu_ram = r.take_bytes(CPU_RAM_SIZE);
        let prg_ram = r.take_bytes(PRG_RAM_8K);
        let vram = r.take_bytes(VRAM_SIZE);
        let palette_ram = r.take_bytes(PALETTE_SIZE);
        let chr_banks_bytes = r.take_bytes(4);
        let mut chr_banks = self.chr_banks;
        copy_into_array(&mut chr_banks, &chr_banks_bytes);
        let nt_banks_bytes = r.take_bytes(2);
        let mut nt_banks = self.nt_banks;
        copy_into_array(&mut nt_banks, &nt_banks_bytes);
        let prg_bank = r.take_u8();
        let mirroring = r.take_u8();
        let use_chr_nametables = r.take_bool();
        let prg_ram_enabled = r.take_bool();
        let controllers = take_controllers(r);
        self.cpu_ram = cpu_ram;
        self.prg_ram = prg_ram;
        self.vram = vram;
        self.palette_ram = palette_ram;
        self.chr_banks = chr_banks;
        self.nt_banks = nt_banks;
        self.prg_bank = prg_bank;
        self.mirroring = mirroring;
        self.use_chr_nametables = use_chr_nametables;
        self.prg_ram_enabled = prg_ram_enabled;
        self.controllers = controllers;
        Ok(())
    }

    /// Saving a state and loading it into a cartridge of the same shape
    /// succeeds and restores every saved field.
    #[verifier::spinoff_prover]
    pub proof fn lemma_state_roundtrip(o: Self, m: Self, n: Self, d: Seq<u8>, p: int)
        requires
            o.wf(),
            m.wf(),
            m.fits(),
            o.same_layout(&m),
            n.same_layout(&m),
            stored_at(d, p, m.state_bytes()),
        ensures
            o.load_outcome(d, p) == Ok::<(), StateError>(()),
            n.loaded_from(d, p) ==> n.same_state(&m),
    {
        let s0 = m.cpu_ram@;
        let s1 = s0 + m.prg_ram@;
        let s2 = s1 + m.vram@;
        let s3 = s2 + m.palette_ram@;
        let s4 = s3 + m.chr_banks@;
        let s5 = s4 + m.nt_banks@;
        let s6 = s5 + enc_u8(m.prg_bank);
        let s7 = s6 + enc_u8(m.mirroring);
        let s8 = s7 + enc_bool(m.use_chr_nametables);
        let s9 = s8 + enc_bool(m.prg_ram_enabled);
        let s10 = s9 + controllers_bytes(m.controllers);
        lemma_stored_split(d, p, s9, controllers_bytes(m.controllers));
        lemma_stored_split(d, p, s8, enc_bool(m.prg_ram_enabled));
        lemma_stored_split(d, p, s7, enc_bool(m.use_chr_nametables));
        lemma_stored_split(d, p, s6, enc_u8(m.mirroring));
        lemma_stored_split(d, p, s5, enc_u8(m.prg_bank));
        lemma_stored_split(d, p, s4, m.nt_banks@);
        lemma_stored_split(d, p, s3, m.chr_banks@);
        lemma_stored_split(d, p, s2, m.palette_ram@);
        lemma_stored_split(d, p, s1, m.vram@);
        lemma_stored_split(d, p, s0, m.prg_ram@);
        lemma_stored_u8(d, (p + CPU_RAM_SIZE + PRG_RAM_8K + VRAM_SIZE + PALETTE_SIZE + 6), m.prg_bank);
        lemma_stored_u8(d, (p + CPU_RAM_SIZE + PRG_RAM_8K + VRAM_SIZE + PALETTE_SIZE + 7), m.mirroring);
        lemma_stored_bool(d, (p + CPU_RAM_SIZE + PRG_RAM_8K + VRAM_SIZE + PALETTE_SIZE + 8), m.use_chr_nametables);
        lemma_stored_bool(d, (p + CPU_RAM_SIZE + PRG_RAM_8K + VRAM_SIZE + PALETTE_SIZE + 9), m.prg_ram_enabled);
        lemma_stored_controllers(d, (p + CPU_RAM_SIZE + PRG_RAM_8K + VRAM_SIZE + PALETTE_SIZE + 10), m.controllers);
        if n.loaded_from(d, p) {
            assert(n.controllers@ =~= m.controllers@);
        }
    }
}

/// The last 16KB PRG bank is fixed at $C000-$FFFF, where the CPU finds its
/// vectors, whatever the bank register holds.
pub proof fn lemma_sunsoft4_fixed_last_bank(m: Sunsoft4Mapper, addr: u16)
    requires
        m.prg_rom@.len() > 0,
        0xC000 <= addr,
    ensures
        m.spec_cpu_read(addr) == m.prg_rom@[m.prg_rom@.len() - 1][addr - 0xC000],
{
    assert((addr as int) % 0x4000 == addr - 0xC000);
}

} // verus!
