//! Taito TC0190 (mapper 33) and TC0690 (mapper 48): two switchable 8KB PRG
//! banks before two fixed ones, two 2KB and four 1KB CHR banks, and on the
//! TC0690 an MMC3-like scanline IRQ clocked by rises of PPU A12.

use vstd::prelude::*;
use crate::bus::{NametableMirror, CPU_RAM_SIZE, VRAM_SIZE, PALETTE_SIZE, RESET_TARGET_ADDR, A12_FILTER_DOTS, nt_offset, mirror_nametable_addr, palette_slot, palette_index, word, make_word};
use crate::ppu_bus::{zeroed, filled};
use crate::controller::Controller;
use crate::mapper::common::{new_controllers, split_16k_to_8k};
use crate::mapper::irem_g101::sat_sub;

use crate::savestate::{enc_bool, lemma_stored_bool, SavestateWriter, SavestateReader, StateError, enc_u8, stored_at, lemma_add_assoc, lemma_stored_split, lemma_stored_u8, copy_into_array};
use crate::controller::{controllers_bytes, controller_at, save_controllers, take_controllers, lemma_stored_controllers, CONTROLLER_STATE_LEN};
use crate::ppu_bus::{mirror_code, mirror_from_code, mirroring_from_code, save_mirroring, lemma_mirror_code_roundtrip};

verus! {

pub const PRG_BANK_SIZE: usize = 0x2000;
pub const CHR_BANK_SIZE: usize = 0x0400;

pub struct Taito33Mapper {
    pub controllers: [Controller; 2],
    pub prg_rom: Vec<[u8; PRG_BANK_SIZE]>,
    pub chr_8k: Vec<[u8; 8192]>,
    pub prg_banks: [u8; 2],
    pub chr_banks: [u8; 8],
    pub mirroring: NametableMirror,
    pub is_mapper48: bool,
    pub irq_counter: u8,
    pub irq_latch: u8,
    pub irq_enable: bool,
    pub irq_reload: bool,
    pub irq_pending: bool,
    /// The dot at which the pending IRQ was raised.
    pub irq_pending_since_dot: u64,
    /// The dot at which A12 went low, or 0 while it is high.
    pub last_a12_low_dot: u64,
    pub vram: Vec<u8>,
    pub cpu_ram: Vec<u8>,
    pub palette_ram: Vec<u8>,
}

/// The counter after one scanline clock: reloaded from the latch when a
/// reload is asked for or it is zero, else decremented.
pub open spec fn clocked_counter(counter: u8, latch: u8, reload: bool) -> u8 {
    if reload || counter == 0 { latch } else { (counter - 1) as u8 }
}

/// Whether a fetch of `addr` at `dot` clocks the counter: A12 is high and
/// was low for at least the filter's length.
pub open spec fn a12_clocks(addr: u16, dot: u64, last_low: u64) -> bool {
    &&& (addr as int / 0x1000) % 2 == 1
    &&& last_low > 0
    &&& dot >= last_low + A12_FILTER_DOTS
}

impl Taito33Mapper {
    pub open spec fn wf(&self) -> bool {
        &&& self.cpu_ram@.len() == CPU_RAM_SIZE
        &&& self.vram@.len() == VRAM_SIZE
        &&& self.palette_ram@.len() == PALETTE_SIZE
        &&& 8 * self.chr_8k@.len() <= usize::MAX
    }

    pub open spec fn spec_prg_bank_at(&self, addr: u16) -> int {
        let len = self.prg_rom@.len() as int;
        let m: int = if len == 0 { 1 } else { len };
        if addr <= 0x9FFF {
            self.prg_banks@[0] as int % m
        } else if addr <= 0xBFFF {
            self.prg_banks@[1] as int % m
        } else if addr <= 0xDFFF {
            sat_sub(len, 2)
        } else {
            sat_sub(len, 1)
        }
    }

    pub open spec fn spec_cpu_read(&self, addr: u16) -> u8 {
        if addr <= 0x1FFF {
            self.cpu_ram@[(addr as int) % 0x800]
        } else if addr >= 0x8000 {
            let bank = self.spec_prg_bank_at(addr);
            if bank < self.prg_rom@.len() { self.prg_rom@[bank][(addr as int) % 0x2000] } else { 0 }
        } else {
            0
        }
    }

    pub open spec fn spec_ppu_read(&self, addr: u16) -> u8 {
        if addr <= 0x1FFF {
            let n = 8 * self.chr_8k@.len() as int;
            if n == 0 {
                0
            } else {
                let b = self.chr_banks@[((addr as int) / 1024) % 8] as int % n;
                self.chr_8k@[b / 8][(b % 8) * 1024 + (addr as int) % 1024]
            }
        } else if addr <= 0x3EFF {
            self.vram@[nt_offset(addr, self.mirroring)]
        } else if addr <= 0x3FFF {
            self.palette_ram@[palette_slot(addr)]
        } else {
            0
        }
    }

    /// The effect of a scanline clock at `dot` on the IRQ state, from `old`.
    pub open spec fn clocked_from(&self, old: &Taito33Mapper, dot: u64) -> bool {
        let c = clocked_counter(old.irq_counter, old.irq_latch, old.irq_reload);
        let fire = c == 0 && old.irq_enable;
        &&& self.irq_counter == c
        &&& !self.irq_reload
        &&& self.irq_pending == (old.irq_pending || fire)
        &&& self.irq_pending_since_dot == (if fire && !old.irq_pending { dot } else { old.irq_pending_since_dot })
        &&& self.irq_latch == old.irq_latch
        &&& self.irq_enable == old.irq_enable
    }

    /// What `new` builds from its arguments.
    pub open spec fn built_by_new(flags: u8, prg_banks_16k: Vec<[u8; 16384]>, chr_banks_8k: Vec<[u8; 8192]>, m: Taito33Mapper) -> bool {
        &&& (m.is_power_on(flags, prg_banks_16k@, chr_banks_8k@, false))
    }

    /// The TC0190 (mapper 33).
    pub fn new(flags: u8, prg_banks_16k: Vec<[u8; 16384]>, chr_banks_8k: Vec<[u8; 8192]>) -> (m: Taito33Mapper)
        requires
            2 * prg_banks_16k@.len() <= usize::MAX,
            8 * chr_banks_8k@.len() <= usize::MAX,
        ensures
            m.is_power_on(flags, prg_banks_16k@, chr_banks_8k@, false),
            Self::built_by_new(flags, prg_banks_16k, chr_banks_8k, m),
    {
        Self::new_variant(flags, prg_banks_16k, chr_banks_8k, false)
    }

    /// What `new_mapper48` builds from its arguments.
    pub open spec fn built_by_new_mapper48(flags: u8, prg_banks_16k: Vec<[u8; 16384]>, chr_banks_8k: Vec<[u8; 8192]>, m: Taito33Mapper) -> bool {
        &&& (m.is_power_on(flags, prg_banks_16k@, chr_banks_8k@, true))
    }

    /// The TC0690 (mapper 48), with the scanline IRQ.
    pub fn new_mapper48(flags: u8, prg_banks_16k: Vec<[u8; 16384]>, chr_banks_8k: Vec<[u8; 8192]>) -> (m: Taito33Mapper)
        requires
            2 * prg_banks_16k@.len() <= usize::MAX,
            8 * chr_banks_8k@.len() <= usize::MAX,
        ensures
            m.is_power_on(flags, prg_banks_16k@, chr_banks_8k@, true),
            Self::built_by_new_mapper48(flags, prg_banks_16k, chr_banks_8k, m),
    {
        Self::new_variant(flags, prg_banks_16k, chr_banks_8k, true)
    }

    /// The power-on state of a board built from these images.
    pub open spec fn is_power_on(&self, flags: u8, prg_16k: Seq<[u8; 16384]>, chr_8k: Seq<[u8; 8192]>, is_mapper48: bool) -> bool {
        &&& self.wf()
        &&& self.prg_rom@.len() == 2 * prg_16k.len()
        &&& forall|i: int| 0 <= i < self.prg_rom@.len() ==> #[trigger] self.prg_rom@[i]@ == prg_16k[i / 2]@.subrange(
            (i % 2) * 8192,
            (i % 2) * 8192 + 8192,
        )
        &&& self.chr_8k@ == chr_8k
        &&& self.prg_banks@ == seq![0u8, 1]
        &&& forall|i: int| 0 <= i < 8 ==> self.chr_banks@[i] == i
        &&& self.mirroring == (if flags & 1 != 0 { NametableMirror::Vertical } else { NametableMirror::Horizontal })
        &&& self.is_mapper48 == is_mapper48
        &&& self.irq_counter == 0 && self.irq_latch == 0 && !self.irq_enable && !self.irq_reload && !self.irq_pending
        &&& self.irq_pending_since_dot == 0 && self.last_a12_low_dot == 0
        &&& self.vram@ == Seq::new(VRAM_SIZE as nat, |i: int| 0u8)
        &&& self.cpu_ram@ == Seq::new(CPU_RAM_SIZE as nat, |i: int| 0u8)
        &&& self.palette_ram@ == Seq::new(PALETTE_SIZE as nat, |i: int| 0x0Fu8)
    }

    /// Either board, by `is_mapper48`.
    pub fn new_variant(flags: u8, prg_banks_16k: Vec<[u8; 16384]>, chr_banks_8k: Vec<[u8; 8192]>, is_mapper48: bool) -> (m: Taito33Mapper)
        requires
            2 * prg_banks_16k@.len() <= usize::MAX,
            8 * chr_banks_8k@.len() <= usize::MAX,
        ensures
            m.is_power_on(flags, prg_banks_16k@, chr_banks_8k@, is_mapper48),
    {
        let prg_rom = split_16k_to_8k(&prg_banks_16k);
        let m = Taito33Mapper {
            controllers: new_controllers(),
            prg_rom,
            chr_8k: chr_banks_8k,
            prg_banks: [0, 1],
            chr_banks: [0, 1, 2, 3, 4, 5, 6, 7],
            mirroring: if flags & 1 != 0 { NametableMirror::Vertical } else { NametableMirror::Horizontal },
            is_mapper48,
            irq_counter: 0,
            irq_latch: 0,
            irq_enable: false,
            irq_reload: false,
            irq_pending: false,
            irq_pending_since_dot: 0,
            last_a12_low_dot: 0,
            vram: zeroed(VRAM_SIZE),
            cpu_ram: zeroed(CPU_RAM_SIZE),
            palette_ram: filled(PALETTE_SIZE, 0x0F),
        };
        assert(m.prg_banks@ == seq![0u8, 1]);
        m
    }

    fn clock_irq_counter(&mut self, dot: u64)
        ensures
            final(self).clocked_from(old(self), dot),
            final(self).last_a12_low_dot == old(self).last_a12_low_dot,
            final(self).prg_banks == old(self).prg_banks,
            final(self).chr_banks == old(self).chr_banks,
            final(self).mirroring == old(self).mirroring,
            final(self).is_mapper48 == old(self).is_mapper48,
            final(self).prg_rom == old(self).prg_rom,
            final(self).chr_8k == old(self).chr_8k,
            final(self).vram == old(self).vram,
            final(self).cpu_ram == old(self).cpu_ram,
            final(self).palette_ram == old(self).palette_ram,
            final(self).controllers == old(self).controllers,
    {
        if self.irq_reload || self.irq_counter == 0 {
            self.irq_counter = self.irq_latch;
        } else {
            self.irq_counter = self.irq_counter - 1;
        }
        self.irq_reload = false;
        if self.irq_counter == 0 && self.irq_enable {
            if !self.irq_pending {
                self.irq_pending_since_dot = dot;
            }
            self.irq_pending = true;
        }
    }

    /// Tracks A12: a rise after at least `A12_FILTER_DOTS` dots low clocks
    /// the counter.
    fn check_a12_transition(&mut self, addr: u16, dot: u64)
        ensures
            a12_clocks(addr, dot, old(self).last_a12_low_dot) ==> final(self).clocked_from(old(self), dot),
            !a12_clocks(addr, dot, old(self).last_a12_low_dot) ==> final(self).irq_counter == old(self).irq_counter
                && final(self).irq_reload == old(self).irq_reload && final(self).irq_pending == old(self).irq_pending
                && final(self).irq_pending_since_dot == old(self).irq_pending_since_dot
                && final(self).irq_latch == old(self).irq_latch && final(self).irq_enable == old(self).irq_enable,
            final(self).last_a12_low_dot == (if (addr as int / 0x1000) % 2 == 1 {
                0
            } else if old(self).last_a12_low_dot == 0 {
                dot
            } else {
                old(self).last_a12_low_dot
            }),
            final(self).prg_banks == old(self).prg_banks,
            final(self).chr_banks == old(self).chr_banks,
            final(self).mirroring == old(self).mirroring,
            final(self).is_mapper48 == old(self).is_mapper48,
            final(self).prg_rom == old(self).prg_rom,
            final(self).chr_8k == old(self).chr_8k,
            final(self).vram == old(self).vram,
            final(self).cpu_ram == old(self).cpu_ram,
            final(self).palette_ram == old(self).palette_ram,
            final(self).controllers == old(self).controllers,
    {
        let high = (addr / 0x1000) % 2 == 1;
        if high {
            if self.last_a12_low_dot > 0 && dot.saturating_sub(self.last_a12_low_dot) >= A12_FILTER_DOTS {
                self.clock_irq_counter(dot);
            }
            self.last_a12_low_dot = 0;
        } else if self.last_a12_low_dot == 0 {
            self.last_a12_low_dot = dot;
        }
    }

    pub fn cpu_read(&self, addr: u16) -> (r: u8)
        requires
            self.wf(),
        ensures
            r == self.spec_cpu_read(addr),
    {
        if addr <= 0x1FFF {
            return self.cpu_ram[(addr % 0x800) as usize];
        }
        if addr < 0x8000 {
            return 0;
        }
        let len = self.prg_rom.len();
        let m = if len == 0 { 1 } else { len };
        let bank: usize = if addr <= 0x9FFF {
            self.prg_banks[0] as usize % m
        } else if addr <= 0xBFFF {
            self.prg_banks[1] as usize % m
        } else if addr <= 0xDFFF {
            len.saturating_sub(2)
        } else {
            len.saturating_sub(1)
        };
        if bank < len {
            self.prg_rom[bank][(addr % 0x2000) as usize]
        } else {
            0
        }
    }

    /// Registers decoded on A0, A1, A13-A15: $8000 PRG bank 0 (and on the
    /// TC0190 mirroring), $8001 PRG bank 1, $8002/$8003 2KB CHR banks,
    /// $A000-$A003 1KB CHR banks; on the TC0690 $C000-$C003 IRQ latch
    /// (inverted), reload, enable, disable, and $E000 mirroring.
    pub fn cpu_write(&mut self, addr: u16, value: u8)
        requires
            old(self).wf(),
        ensures
            final(self).wf(),
            addr <= 0x1FFF ==> final(self).cpu_ram@ == old(self).cpu_ram@.update((addr as int) % 0x800, value),
            addr > 0x1FFF ==> final(self).cpu_ram == old(self).cpu_ram,
            ({
                let sel: u16 = if addr >= 0x8000 { addr & 0xE003 } else { 0 };
                let m48 = old(self).is_mapper48;
                let base = value << 1u8;
                &&& final(self).prg_banks@ == (if sel == 0x8000 {
                    old(self).prg_banks@.update(0, value & 0x3F)
                } else if sel == 0x8001 {
                    old(self).prg_banks@.update(1, value & 0x3F)
                } else {
                    old(self).prg_banks@
                })
                &&& final(self).chr_banks@ == (if sel == 0x8002 {
                    old(self).chr_banks@.update(0, base).update(1, base | 1)
                } else if sel == 0x8003 {
                    old(self).chr_banks@.update(2, base).update(3, base | 1)
                } else if 0xA000 <= sel <= 0xA003 {
                    old(self).chr_banks@.update(4 + sel - 0xA000, value)
                } else {
                    old(self).chr_banks@
                })
                &&& final(self).mirroring == (if (sel == 0x8000 && !m48) || (sel == 0xE000 && m48) {
                    if value & 0x40 != 0 { NametableMirror::Horizontal } else { NametableMirror::Vertical }
                } else {
                    old(self).mirroring
                })
                &&& final(self).irq_latch == (if sel == 0xC000 && m48 { value ^ 0xFF } else { old(self).irq_latch })
                &&& final(self).irq_reload == (if sel == 0xC001 && m48 { true } else { old(self).irq_reload })
                &&& final(self).irq_enable == (if sel == 0xC002 && m48 { true } else if sel == 0xC003 && m48 { false } else { old(self).irq_enable })
                &&& final(self).irq_pending == (if sel == 0xC003 && m48 { false } else { old(self).irq_pending })
            }),
            final(self).irq_counter == old(self).irq_counter,
            final(self).irq_pending_since_dot == old(self).irq_pending_since_dot,
            final(self).last_a12_low_dot == old(self).last_a12_low_dot,
            final(self).is_mapper48 == old(self).is_mapper48,
            final(self).prg_rom == old(self).prg_rom,
            final(self).chr_8k == old(self).chr_8k,
            final(self).vram == old(self).vram,
            final(self).palette_ram == old(self).palette_ram,
            final(self).controllers == old(self).controllers,
    {
        if addr <= 0x1FFF {
            self.cpu_ram.set((addr % 0x800) as usize, value);
            return;
        }
        if addr < 0x8000 {
            return;
        }
        let sel = addr & 0xE003;
        let m48 = self.is_mapper48;
        if sel == 0x8000 {
            self.prg_banks[0] = value & 0x3F;
            if !m48 {
                self.mirroring = if value & 0x40 != 0 { NametableMirror::Horizontal } else { NametableMirror::Vertical };
            }
        } else if sel == 0x8001 {
            self.prg_banks[1] = value & 0x3F;
        } else if sel == 0x8002 {
            let base = value << 1;
            self.chr_banks[0] = base;
            self.chr_banks[1] = base | 1;
        } else if sel == 0x8003 {
            let base = value << 1;
            self.chr_banks[2] = base;
            self.chr_banks[3] = base | 1;
        } else if 0xA000 <= sel && sel <= 0xA003 {
            self.chr_banks[(4 + sel - 0xA000) as usize] = value;
        } else if m48 {
            if sel == 0xC000 {
                self.irq_latch = value ^ 0xFF;
            } else if sel == 0xC001 {
                self.irq_reload = true;
            } else if sel == 0xC002 {
                self.irq_enable = true;
            } else if sel == 0xC003 {
                self.irq_enable = false;
                self.irq_pending = false;
            } else if sel == 0xE000 {
                self.mirroring = if value & 0x40 != 0 { NametableMirror::Horizontal } else { NametableMirror::Vertical };
            }
        }
    }

    pub fn ppu_read(&self, addr: u16) -> (r: u8)
        requires
            self.wf(),
        ensures
            r == self.spec_ppu_read(addr),
    {
        if addr <= 0x1FFF {
            let n = 8 * self.chr_8k.len();
            if n == 0 {
                return 0;
            }
            let b = self.chr_banks[((addr / 1024) % 8) as usize] as usize % n;
            self.chr_8k[b / 8][(b % 8) * 1024 + (addr % 1024) as usize]
        } else if addr <= 0x3EFF {
            self.vram[mirror_nametable_addr(addr, self.mirroring) as usize]
        } else if addr <= 0x3FFF {
            self.palette_ram[palette_index(addr)]
        } else {
            0
        }
    }

    /// A rendering fetch; on the TC0690 it also watches A12.
    pub fn ppu_fetch(&mut self, addr: u16, dot: u64) -> (r: u8)
        requires
            old(self).wf(),
        ensures
            final(self).wf(),
            r == old(self).spec_ppu_read(addr),
            old(self).is_mapper48 && a12_clocks(addr, dot, old(self).last_a12_low_dot) ==> final(self).clocked_from(old(self), dot),
            !(old(self).is_mapper48 && a12_clocks(addr, dot, old(self).last_a12_low_dot)) ==> final(self).irq_counter == old(self).irq_counter
                && final(self).irq_pending == old(self).irq_pending,
            final(self).prg_banks == old(self).prg_banks,
            final(self).chr_banks == old(self).chr_banks,
            final(self).mirroring == old(self).mirroring,
            final(self).vram == old(self).vram,
            final(self).palette_ram == old(self).palette_ram,
            final(self).chr_8k == old(self).chr_8k,
            final(self).cpu_ram == old(self).cpu_ram,
            final(self).prg_rom == old(self).prg_rom,
    {
        if self.is_mapper48 {
            self.check_a12_transition(addr, dot);
        }
        self.ppu_read(addr)
    }

    /// A12 moved outside a fetch; on the TC0690 it is watched the same way.
    pub fn ppu_a12_transition(&mut self, addr: u16, dot: u64)
        requires
            old(self).wf(),
        ensures
            final(self).wf(),
            old(self).is_mapper48 && a12_clocks(addr, dot, old(self).last_a12_low_dot) ==> final(self).clocked_from(old(self), dot),
            !(old(self).is_mapper48 && a12_clocks(addr, dot, old(self).last_a12_low_dot)) ==> final(self).irq_counter == old(self).irq_counter
                && final(self).irq_pending == old(self).irq_pending,
            final(self).prg_banks == old(self).prg_banks,
            final(self).chr_banks == old(self).chr_banks,
            final(self).mirroring == old(self).mirroring,
            final(self).vram == old(self).vram,
            final(self).palette_ram == old(self).palette_ram,
    {
        if self.is_mapper48 {
            self.check_a12_transition(addr, dot);
        }
    }

    /// Nametable and palette writes; the pattern tables are ROM.
    pub fn ppu_write(&mut self, addr: u16, value: u8)
        requires
            old(self).wf(),
        ensures
            final(self).wf(),
            0x2000 <= addr <= 0x3EFF ==> final(self).vram@ == old(self).vram@.update(nt_offset(addr, old(self).mirroring), value),
            !(0x2000 <= addr <= 0x3EFF) ==> final(self).vram == old(self).vram,
            0x3F00 <= addr <= 0x3FFF ==> final(self).palette_ram@ == old(self).palette_ram@.update(palette_slot(addr), value),
            !(0x3F00 <= addr <= 0x3FFF) ==> final(self).palette_ram == old(self).palette_ram,
            final(self).cpu_ram == old(self).cpu_ram,
            final(self).chr_banks == old(self).chr_banks,
            final(self).prg_banks == old(self).prg_banks,
            final(self).mirroring == old(self).mirroring,
            final(self).prg_rom == old(self).prg_rom,
            final(self).chr_8k == old(self).chr_8k,
    {
        if 0x2000 <= addr && addr <= 0x3EFF {
            let i = mirror_nametable_addr(addr, self.mirroring) as usize;
            self.vram.set(i, value);
        } else if 0x3F00 <= addr && addr <= 0x3FFF {
            let i = palette_index(addr);
            self.palette_ram.set(i, value);
        }
    }

    pub fn code_start(&self) -> (r: u16)
        requires
            self.wf(),
        ensures
            r == word(self.spec_cpu_read(RESET_TARGET_ADDR), self.spec_cpu_read(0xFFFD)),
    {
        make_word(self.cpu_read(RESET_TARGET_ADDR), self.cpu_read(RESET_TARGET_ADDR + 1))
    }

    pub fn poll_irq(&self) -> (r: bool)
        ensures
            r == self.irq_pending,
    {
        self.irq_pending
    }

    /// Whether an IRQ raised no later than `deadline_dot` is pending.
    pub fn poll_irq_at_dot(&self, deadline_dot: u64) -> (r: bool)
        ensures
            r == (self.irq_pending && self.irq_pending_since_dot <= deadline_dot),
    {
        self.irq_pending && self.irq_pending_since_dot <= deadline_dot
    }

    pub fn mapper_id(&self) -> (r: u8)
        ensures
            r == (if self.is_mapper48 { 48u8 } else { 33u8 }),
    {
        if self.is_mapper48 { 48 } else { 33 }
    }
}

impl Taito33Mapper {
    /// The bytes `save_state` appends.
    pub open spec fn state_bytes(&self) -> Seq<u8> {
        self.cpu_ram@
            + self.vram@
            + self.palette_ram@
            + self.chr_banks@
            + self.prg_banks@
            + enc_u8(mirror_code(self.mirroring))
            + controllers_bytes(self.controllers)
            + self.irq_state_bytes()
    }

    /// The IRQ registers, which only the mapper 48 board saves.
    pub open spec fn irq_state_bytes(&self) -> Seq<u8> {
        if self.is_mapper48 {
            enc_u8(self.irq_counter) + enc_u8(self.irq_latch) + enc_bool(self.irq_enable) + enc_bool(
                self.irq_reload,
            ) + enc_bool(self.irq_pending)
        } else {
            Seq::empty()
        }
    }

    /// The IRQ registers hold what the bytes at `q` store.
    pub open spec fn irq_loaded_from(&self, d: Seq<u8>, q: int) -> bool {
        &&& self.irq_counter == d[q]
        &&& self.irq_latch == d[q + 1]
        &&& self.irq_enable == (d[q + 2] != 0)
        &&& self.irq_reload == (d[q + 3] != 0)
        &&& self.irq_pending == (d[q + 4] != 0)
    }

    /// The two agree on the IRQ registers.
    pub open spec fn same_irq(&self, other: &Self) -> bool {
        &&& self.irq_counter == other.irq_counter
        &&& self.irq_latch == other.irq_latch
        &&& self.irq_enable == other.irq_enable
        &&& self.irq_reload == other.irq_reload
        &&& self.irq_pending == other.irq_pending
    }

    /// Length of the saved state.
    pub open spec fn state_len(&self) -> nat {
        (CPU_RAM_SIZE + VRAM_SIZE + PALETTE_SIZE + 2 * CONTROLLER_STATE_LEN + 11 + (if self.is_mapper48 {
            5int
        } else {
            0int
        })) as nat
    }

    /// Every register that the state stores in fewer bits than it is held in
    /// fits in those bits.
    pub open spec fn fits(&self) -> bool {
        true
    }

    /// The stored bytes at `p` hold a state that this cartridge can take.
    pub open spec fn state_valid(&self, d: Seq<u8>, p: int) -> bool {
        &&& mirror_from_code(d[(p + CPU_RAM_SIZE + VRAM_SIZE + PALETTE_SIZE + 10)]) is Some
    }

    /// What `load_state` answers for the bytes at `p`.
    pub open spec fn load_outcome(&self, d: Seq<u8>, p: int) -> Result<(), StateError> {
        if p + self.state_len() > d.len() {
            Err(StateError::UnexpectedEof)
        } else if !self.state_valid(d, p) {
            Err(StateError::InvalidValue)
        } else {
            Ok(())
        }
    }

    /// Every saved field holds what the bytes at `p` store.
    pub open spec fn loaded_from(&self, d: Seq<u8>, p: int) -> bool {
        &&& self.cpu_ram@ == d.subrange(p, p + CPU_RAM_SIZE)
        &&& self.vram@ == d.subrange((p + CPU_RAM_SIZE), (p + CPU_RAM_SIZE) + VRAM_SIZE)
        &&& self.palette_ram@ == d.subrange((p + CPU_RAM_SIZE + VRAM_SIZE), (p + CPU_RAM_SIZE + VRAM_SIZE) + PALETTE_SIZE)
        &&& self.chr_banks@ == d.subrange((p + CPU_RAM_SIZE + VRAM_SIZE + PALETTE_SIZE), (p + CPU_RAM_SIZE + VRAM_SIZE + PALETTE_SIZE) + 8)
        &&& self.prg_banks@ == d.subrange((p + CPU_RAM_SIZE + VRAM_SIZE + PALETTE_SIZE + 8), (p + CPU_RAM_SIZE + VRAM_SIZE + PALETTE_SIZE + 8) + 2)
        &&& self.mirroring == mirror_from_code(d[(p + CPU_RAM_SIZE + VRAM_SIZE + PALETTE_SIZE + 10)])->0
        &&& self.controllers@[0] == controller_at(d, (p + CPU_RAM_SIZE + VRAM_SIZE + PALETTE_SIZE + 11))
        &&& self.controllers@[1] == controller_at(d, (p + CPU_RAM_SIZE + VRAM_SIZE + PALETTE_SIZE + 11) + CONTROLLER_STATE_LEN)
        &&& self.is_mapper48 ==> self.irq_loaded_from(d, p + CPU_RAM_SIZE + VRAM_SIZE + PALETTE_SIZE + 33)
    }

    /// The two agree on every saved field.
    pub open spec fn same_state(&self, other: &Self) -> bool {
        &&& self.cpu_ram@ == other.cpu_ram@
        &&& self.vram@ == other.vram@
        &&& self.palette_ram@ == other.palette_ram@
        &&& self.chr_banks@ == other.chr_banks@
        &&& self.prg_banks@ == other.prg_banks@
        &&& self.mirroring == other.mirroring
        &&& self.controllers@ == other.controllers@
        &&& self.is_mapper48 ==> self.same_irq(other)
    }

    /// The two agree on every field that the state does not store.
    pub open spec fn keeps_unsaved(&self, other: &Self) -> bool {
        &&& self.prg_rom == other.prg_rom
        &&& self.chr_8k == other.chr_8k
        &&& self.is_mapper48 == other.is_mapper48
        &&& self.irq_pending_since_dot == other.irq_pending_since_dot
        &&& self.last_a12_low_dot == other.last_a12_low_dot
        &&& !self.is_mapper48 ==> self.same_irq(other)
    }

    /// The two come from cartridges of the same shape.
    pub open spec fn same_layout(&self, other: &Self) -> bool {
        &&& self.is_mapper48 == other.is_mapper48
    }

    #[verifier::spinoff_prover]
    pub fn save_state(&self, w: &mut SavestateWriter)
        ensures
            final(w).buf@ == old(w).buf@ + self.state_bytes(),
    {
        let ghost b = w.buf@;
        let ghost s0 = self.cpu_ram@;
        let ghost s1 = s0 + self.vram@;
        let ghost s2 = s1 + self.palette_ram@;
        let ghost s3 = s2 + self.chr_banks@;
        let ghost s4 = s3 + self.prg_banks@;
        let ghost s5 = s4 + enc_u8(mirror_code(self.mirroring));
        let ghost s6 = s5 + controllers_bytes(self.controllers);
        w.write_bytes(self.cpu_ram.as_slice());
        w.write_bytes(self.vram.as_slice());
        proof {
            lemma_add_assoc(b, s0, self.vram@);
        }
        w.write_bytes(self.palette_ram.as_slice());
        proof {
            lemma_add_assoc(b, s1, self.palette_ram@);
        }
        w.write_bytes(self.chr_banks.as_slice());
        proof {
            lemma_add_assoc(b, s2, self.chr_banks@);
        }
        w.write_bytes(self.prg_banks.as_slice());
        proof {
            lemma_add_assoc(b, s3, self.prg_banks@);
        }
        save_mirroring(w, self.mirroring);
        proof {
            lemma_add_assoc(b, s4, enc_u8(mirror_code(self.mirroring)));
        }
        save_controllers(w, &self.controllers);
        proof {
            lemma_add_assoc(b, s5, controllers_bytes(self.controllers));
        }
        if self.is_mapper48 {
            w.write_u8(self.irq_counter);
            w.write_u8(self.irq_latch);
            w.write_bool(self.irq_enable);
            w.write_bool(self.irq_reload);
            w.write_bool(self.irq_pending);
        }
        proof {
            assert(w.buf@ =~= b + s6 + self.irq_state_bytes());
            lemma_add_assoc(b, s6, self.irq_state_bytes());
        }
    }

    /// Restores a state written by `save_state`. Nothing changes unless the
    /// whole state is there and holds values this cartridge can take.
    #[verifier::spinoff_prover]
    pub fn load_state(&mut self, r: &mut SavestateReader) -> (res: Result<(), StateError>)
        requires
            old(self).wf(),
            old(r).wf(),
        ensures
            final(r).wf(),
            final(r).data@ == old(r).data@,
            res == old(self).load_outcome(old(r).data@, old(r).pos as int),
            res is Err ==> *final(self) == *old(self) && final(r).pos == old(r).pos,
            res is Ok ==> final(self).wf() && final(self).loaded_from(old(r).data@, old(r).pos as int)
                && final(self).keeps_unsaved(&*old(self)) && final(self).same_layout(&*old(self))
                && final(r).pos == old(r).pos + old(self).state_len(),
    {
        let ghost d = r.data@;
        let ghost p = r.pos as int;
        let start = r.pos;
        let tail: usize = if self.is_mapper48 { 5 } else { 0 };
        if r.remaining_len() < CPU_RAM_SIZE + VRAM_SIZE + PALETTE_SIZE + 2 * CONTROLLER_STATE_LEN + 11 + tail {
            return Err(StateError::UnexpectedEof);
        }
        let cpu_ram = r.take_bytes(CPU_RAM_SIZE);
        let vram = r.take_bytes(VRAM_SIZE);
        let palette_ram = r.take_bytes(PALETTE_SIZE);
        let chr_banks_bytes = r.take_bytes(8);
        let mut chr_banks = self.chr_banks;
        copy_into_array(&mut chr_banks, &chr_banks_bytes);
        let prg_banks_bytes = r.take_bytes(2);
        let mut prg_banks = self.prg_banks;
        copy_into_array(&mut prg_banks, &prg_banks_bytes);
        let mirroring_code = r.take_u8();
        let controllers = take_controllers(r);
        let (irq_counter, irq_latch, irq_enable, irq_reload, irq_pending) = if self.is_mapper48 {
            let c = r.take_u8();
            let l = r.take_u8();
            let e = r.take_bool();
            let rl = r.take_bool();
            let pd = r.take_bool();
            (c, l, e, rl, pd)
        } else {
            (self.irq_counter, self.irq_latch, self.irq_enable, self.irq_reload, self.irq_pending)
        };
        let mirroring = match mirroring_from_code(mirroring_code) {
            Some(m) => m,
            None => {
                r.rewind(start);
                return Err(StateError::InvalidValue);
            },
        };
        self.cpu_ram = cpu_ram;
        self.vram = vram;
        self.palette_ram = palette_ram;
        self.chr_banks = chr_banks;
        self.prg_banks = prg_banks;
        self.mirroring = mirroring;
        self.controllers = controllers;
        self.irq_counter = irq_counter;
        self.irq_latch = irq_latch;
        self.irq_enable = irq_enable;
        self.irq_reload = irq_reload;
        self.irq_pending = irq_pending;
        Ok(())
    }

    /// Saving a state and loading it into a cartridge of the same shape
    /// succeeds and restores every saved field.
    #[verifier::spinoff_prover]
    pub proof fn lemma_state_roundtrip(o: Self, m: Self, n: Self, d: Seq<u8>, p: int)
        requires
            o.wf(),
            m.wf(),
            m.fits(),
            o.same_layout(&m),
            n.same_layout(&m),
            stored_at(d, p, m.state_bytes()),
        ensures
            o.load_outcome(d, p) == Ok::<(), StateError>(()),
            n.loaded_from(d, p) ==> n.same_state(&m),
    {
        let s0 = m.cpu_ram@;
        let s1 = s0 + m.vram@;
        let s2 = s1 + m.palette_ram@;
        let s3 = s2 + m.chr_banks@;
        let s4 = s3 + m.prg_banks@;
        let s5 = s4 + enc_u8(mirror_code(m.mirroring));
        let s6 = s5 + controllers_bytes(m.controllers);
        lemma_stored_split(d, p, s6, m.irq_state_bytes());
        lemma_stored_split(d, p, s5, controllers_bytes(m.controllers));
        lemma_stored_split(d, p, s4, enc_u8(mirror_code(m.mirroring)));
        lemma_stored_split(d, p, s3, m.prg_banks@);
        lemma_stored_split(d, p, s2, m.chr_banks@);
        lemma_stored_split(d, p, s1, m.palette_ram@);
        lemma_stored_split(d, p, s0, m.vram@);
        lemma_stored_u8(d, (p + CPU_RAM_SIZE + VRAM_SIZE + PALETTE_SIZE + 10), mirror_code(m.mirroring));
        lemma_mirror_code_roundtrip(m.mirroring);
        lemma_stored_controllers(d, (p + CPU_RAM_SIZE + VRAM_SIZE + PALETTE_SIZE + 11), m.controllers);
        if n.loaded_from(d, p) {
            assert(n.controllers@ =~= m.controllers@);
        }
        if m.is_mapper48 {
            let q = p + CPU_RAM_SIZE + VRAM_SIZE + PALETTE_SIZE + 33;
            let t0 = enc_u8(m.irq_counter);
            let t1 = t0 + enc_u8(m.irq_latch);
            let t2 = t1 + enc_bool(m.irq_enable);
            let t3 = t2 + enc_bool(m.irq_reload);
            lemma_stored_split(d, q, t3, enc_bool(m.irq_pending));
            lemma_stored_split(d, q, t2, enc_bool(m.irq_reload));
            lemma_stored_split(d, q, t1, enc_bool(m.irq_enable));
            lemma_stored_split(d, q, t0, enc_u8(m.irq_latch));
            lemma_stored_u8(d, q, m.irq_counter);
            lemma_stored_u8(d, q + 1, m.irq_latch);
            lemma_stored_bool(d, q + 2, m.irq_enable);
            lemma_stored_bool(d, q + 3, m.irq_reload);
            lemma_stored_bool(d, q + 4, m.irq_pending);
        }
    }
}

} // verus!
