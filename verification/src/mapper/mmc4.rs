//! MMC4 (mapper 10): a switchable 16KB PRG bank and a fixed last one, 8KB
//! of PRG RAM, and two 4KB CHR halves whose bank is chosen by a latch that
//! the PPU flips when it fetches tiles $FD or $FE.

use vstd::prelude::*;
use crate::bus::{NametableMirror, CPU_RAM_SIZE, VRAM_SIZE, PALETTE_SIZE, RESET_TARGET_ADDR, spec_mirror_addr, mirror_addr, spec_addr_to_page, addr_to_page, spec_mirroring_from_flags, mirroring_from_flags, nt_offset, mirror_nametable_addr, palette_slot, palette_index, word, make_word};
use crate::ppu_bus::{zeroed, filled};
use crate::controller::Controller;
use crate::mapper::common::{new_controllers, split_8k_to_4k, ram_with_saved, copied_into, copy_vec_to_front, copy_bank_to_front};

use crate::savestate::{SavestateWriter, SavestateReader, StateError, enc_u8, stored_at, lemma_stored_split, lemma_stored_u8};
use crate::controller::{controllers_bytes, controller_at, save_controllers, take_controllers, lemma_stored_controllers, CONTROLLER_STATE_LEN};
use crate::ppu_bus::{mirror_code, mirror_from_code, mirroring_from_code, save_mirroring, lemma_mirror_code_roundtrip};

verus! {

pub const PRG_BANK_SIZE: usize = 16 * 1024;
pub const PRG_RAM_8K: usize = 8 * 1024;
pub const CHR_BANK_SIZE: u16 = 4 * 1024;

pub struct MMC4Mapper {
    pub cpu_ram: Vec<u8>,
    pub prg_banks: Vec<[u8; PRG_BANK_SIZE]>,
    pub prg_bank_idx: usize,
    pub prg_ram: Vec<u8>,
    pub has_battery: bool,
    pub chr_banks: Vec<[u8; 4096]>,
    /// `chr_regs[half][latch]`: the bank of each pattern table (left, right)
    /// for each latch state ($FD, $FE).
    pub chr_regs: [[usize; 2]; 2],
    /// The latch state of each half: 0 for $FD, 1 for $FE.
    pub latches: [usize; 2],
    pub mirroring: NametableMirror,
    pub vram: Vec<u8>,
    pub palette_ram: Vec<u8>,
    pub controllers: [Controller; 2],
}

/// The latches after the PPU fetched pattern address `a`.
pub open spec fn latches_after(latches: Seq<usize>, a: int) -> Seq<usize> {
    if 0x0FD8 <= a <= 0x0FDF {
        latches.update(0, 0)
    } else if 0x0FE8 <= a <= 0x0FEF {
        latches.update(0, 1)
    } else if 0x1FD8 <= a <= 0x1FDF {
        latches.update(1, 0)
    } else if 0x1FE8 <= a <= 0x1FEF {
        latches.update(1, 1)
    } else {
        latches
    }
}

impl MMC4Mapper {
    pub open spec fn wf(&self) -> bool {
        &&& self.cpu_ram@.len() == CPU_RAM_SIZE
        &&& self.vram@.len() == VRAM_SIZE
        &&& self.prg_ram@.len() == PRG_RAM_8K
        &&& self.palette_ram@.len() == PALETTE_SIZE
        &&& self.latches@[0] < 2 && self.latches@[1] < 2
        &&& self.prg_banks@.len() > 0 ==> self.prg_bank_idx < self.prg_banks@.len()
    }

    /// What a CPU read needs of the PRG ROM: the switchable bank at
    /// $8000-$9FFF and the last three banks above it.
    pub open spec fn cpu_readable(&self, addr: u16) -> bool {
        let a = spec_mirror_addr(addr);
        &&& 0x8000 <= a < 0xC000 ==> self.prg_bank_idx < self.prg_banks@.len()
        &&& a >= 0xC000 ==> self.prg_banks@.len() >= 1
    }

    pub open spec fn spec_cpu_read(&self, addr: u16) -> u8 {
        let a = spec_mirror_addr(addr);
        let page = spec_addr_to_page(a);
        let n = self.prg_banks@.len() as int;
        if page == 0x00 || page == 0x10 {
            self.cpu_ram@[a as int]
        } else if page == 0x60 || page == 0x70 {
            self.prg_ram@[a - 0x6000]
        } else if a < 0x8000 {
            0
        } else if a < 0xC000 {
            self.prg_banks@[self.prg_bank_idx as int][a - 0x8000]
        } else {
            self.prg_banks@[n - 1][a - 0xC000]
        }
    }

    /// The 4KB bank shown in pattern table `half`.
    pub open spec fn spec_active_chr_bank(&self, half: int) -> int {
        self.chr_regs@[half]@[self.latches@[half] as int] as int % self.chr_banks@.len() as int
    }

    pub open spec fn spec_ppu_read(&self, addr: u16) -> u8 {
        let a = (addr as int) % 0x4000;
        if a >= 0x3F00 {
            self.palette_ram@[palette_slot(a as u16)]
        } else if a < 0x1000 {
            self.chr_banks@[self.spec_active_chr_bank(0)][a]
        } else if a < 0x2000 {
            self.chr_banks@[self.spec_active_chr_bank(1)][a - 0x1000]
        } else {
            self.vram@[nt_offset(a as u16, self.mirroring)]
        }
    }

    /// What `new` builds from its arguments.
    pub open spec fn built_by_new(flags: u8, prg_banks_16k: Vec<[u8; PRG_BANK_SIZE]>, chr_banks_8k: Vec<[u8; 8192]>, has_battery: bool, sram_data: Option<Vec<u8>>, m: MMC4Mapper) -> bool {
        &&& (m.wf())
        &&& (m.prg_banks@ == prg_banks_16k@)
        &&& (m.has_battery == has_battery)
        &&& (forall|i: int| 0 <= i < PRG_RAM_8K ==> #[trigger] m.prg_ram@[i] == (match sram_data {
                Some(d) => if i < d@.len() { d@[i] } else { 0u8 },
                None => 0u8,
            }))
        &&& (m.chr_banks@.len() == 2 * chr_banks_8k@.len())
        &&& (forall|i: int| 0 <= i < m.chr_banks@.len() ==> #[trigger] m.chr_banks@[i]@ == chr_banks_8k@[i / 2]@.subrange(
                (i % 2) * 4096,
                (i % 2) * 4096 + 4096,
            ))
        &&& (m.prg_bank_idx == 0)
        &&& (m.chr_regs@[0]@ == seq![0usize, 0] && m.chr_regs@[1]@ == seq![0usize, 0])
        &&& (m.latches@ == seq![1usize, 1])
        &&& (m.mirroring == spec_mirroring_from_flags(flags))
        &&& (m.cpu_ram@ == Seq::new(CPU_RAM_SIZE as nat, |i: int| 0u8))
        &&& (m.vram@ == Seq::new(VRAM_SIZE as nat, |i: int| 0u8))
        &&& (m.palette_ram@ == Seq::new(PALETTE_SIZE as nat, |i: int| 0x0Fu8))
    }

    /// Both latches start in the $FE state and every CHR register at 0.
    /// PRG RAM is filled from the saved data.
    pub fn new(flags: u8, prg_banks_16k: Vec<[u8; PRG_BANK_SIZE]>, chr_banks_8k: Vec<[u8; 8192]>, has_battery: bool, sram_data: Option<Vec<u8>>) -> (m: MMC4Mapper)
        requires
            2 * chr_banks_8k@.len() <= usize::MAX,
        ensures
            m.wf(),
            m.prg_banks@ == prg_banks_16k@,
            m.has_battery == has_battery,
            forall|i: int| 0 <= i < PRG_RAM_8K ==> #[trigger] m.prg_ram@[i] == (match sram_data {
                Some(d) => if i < d@.len() { d@[i] } else { 0u8 },
                None => 0u8,
            }),
            m.chr_banks@.len() == 2 * chr_banks_8k@.len(),
            forall|i: int| 0 <= i < m.chr_banks@.len() ==> #[trigger] m.chr_banks@[i]@ == chr_banks_8k@[i / 2]@.subrange(
                (i % 2) * 4096,
                (i % 2) * 4096 + 4096,
            ),
            m.prg_bank_idx == 0,
            m.chr_regs@[0]@ == seq![0usize, 0] && m.chr_regs@[1]@ == seq![0usize, 0],
            m.latches@ == seq![1usize, 1],
            m.mirroring == spec_mirroring_from_flags(flags),
            m.cpu_ram@ == Seq::new(CPU_RAM_SIZE as nat, |i: int| 0u8),
            m.vram@ == Seq::new(VRAM_SIZE as nat, |i: int| 0u8),
            m.palette_ram@ == Seq::new(PALETTE_SIZE as nat, |i: int| 0x0Fu8),
            Self::built_by_new(flags, prg_banks_16k, chr_banks_8k, has_battery, sram_data, m),
    {
        let chr_banks = split_8k_to_4k(&chr_banks_8k);
        let prg_ram = ram_with_saved(PRG_RAM_8K, &sram_data);
        let m = MMC4Mapper {
            cpu_ram: zeroed(CPU_RAM_SIZE),
            prg_banks: prg_banks_16k,
            prg_bank_idx: 0,
            prg_ram,
            has_battery,
            chr_banks,
            chr_regs: [[0, 0], [0, 0]],
            latches: [1, 1],
            mirroring: mirroring_from_flags(flags),
            vram: zeroed(VRAM_SIZE),
            palette_ram: filled(PALETTE_SIZE, 0x0F),
            controllers: new_controllers(),
        };
        assert(m.chr_regs@[0]@ == seq![0usize, 0]);
        assert(m.chr_regs@[1]@ == seq![0usize, 0]);
        assert(m.latches@ == seq![1usize, 1]);
        m
    }

    /// The CHR bank that pattern table `half` currently shows.
    pub fn active_chr_bank(&self, half: usize) -> (r: usize)
        requires
            self.wf(),
            half < 2,
            self.chr_banks@.len() > 0,
        ensures
            r as int == self.spec_active_chr_bank(half as int),
            r < self.chr_banks@.len(),
    {
        let bank = self.chr_regs[half][self.latches[half]];
        bank % self.chr_banks.len()
    }

    fn check_latch_trigger(&mut self, addr: u16)
        requires
            old(self).wf(),
        ensures
            final(self).wf(),
            final(self).latches@ == latches_after(old(self).latches@, addr as int),
            final(self).cpu_ram == old(self).cpu_ram,
            final(self).prg_banks == old(self).prg_banks,
            final(self).prg_bank_idx == old(self).prg_bank_idx,
            final(self).prg_ram == old(self).prg_ram,
            final(self).chr_banks == old(self).chr_banks,
            final(self).chr_regs == old(self).chr_regs,
            final(self).mirroring == old(self).mirroring,
            final(self).vram == old(self).vram,
            final(self).palette_ram == old(self).palette_ram,
            final(self).controllers == old(self).controllers,
    {
        if 0x0FD8 <= addr && addr <= 0x0FDF {
            self.latches[0] = 0;
        } else if 0x0FE8 <= addr && addr <= 0x0FEF {
            self.latches[0] = 1;
        } else if 0x1FD8 <= addr && addr <= 0x1FDF {
            self.latches[1] = 0;
        } else if 0x1FE8 <= addr && addr <= 0x1FEF {
            self.latches[1] = 1;
        }
    }

    pub fn cpu_read(&self, addr: u16) -> (r: u8)
        requires
            self.wf(),
            self.cpu_readable(addr),
        ensures
            r == self.spec_cpu_read(addr),
    {
        let a = mirror_addr(addr);
        let page = addr_to_page(a);
        let n = self.prg_banks.len();
        if page == 0x00 || page == 0x10 {
            self.cpu_ram[a as usize]
        } else if page == 0x60 || page == 0x70 {
            self.prg_ram[(a - 0x6000) as usize]
        } else if a < 0x8000 {
            0
        } else if a < 0xC000 {
            self.prg_banks[self.prg_bank_idx][(a - 0x8000) as usize]
        } else {
            self.prg_banks[n - 1][(a - 0xC000) as usize]
        }
    }

    /// $6000-$7FFF: PRG RAM; $A000: PRG bank (4 bits, wrapped to the ROM);
    /// $B000/$C000: left pattern table for $FD/$FE; $D000/$E000: right
    /// pattern table for $FD/$FE; $F000: mirroring.
    pub fn cpu_write(&mut self, addr: u16, value: u8)
        requires
            old(self).wf(),
            spec_mirror_addr(addr) >= 0xA000 && spec_mirror_addr(addr) < 0xB000 ==> old(self).prg_banks@.len() > 0,
        ensures
            final(self).wf(),
            ({
                let a = spec_mirror_addr(addr);
                let page = spec_addr_to_page(a);
                let reg = a / 0x1000;
                let v = (value & 0x1F) as usize;
                &&& (page == 0x00 || page == 0x10) ==> final(self).cpu_ram@ == old(self).cpu_ram@.update(a as int, value)
                &&& !(page == 0x00 || page == 0x10) ==> final(self).cpu_ram == old(self).cpu_ram
                &&& (page == 0x60 || page == 0x70) ==> final(self).prg_ram@ == old(self).prg_ram@.update(a - 0x6000, value)
                &&& !(page == 0x60 || page == 0x70) ==> final(self).prg_ram == old(self).prg_ram
                &&& final(self).prg_bank_idx == (if a >= 0x8000 && reg == 0xA {
                    (((value & 0x0F) as int) % (old(self).prg_banks@.len() as int)) as usize
                } else {
                    old(self).prg_bank_idx
                })
                &&& final(self).chr_regs@[0]@ == (if a >= 0x8000 && reg == 0xB {
                    old(self).chr_regs@[0]@.update(0, v)
                } else if a >= 0x8000 && reg == 0xC {
                    old(self).chr_regs@[0]@.update(1, v)
                } else {
                    old(self).chr_regs@[0]@
                })
                &&& final(self).chr_regs@[1]@ == (if a >= 0x8000 && reg == 0xD {
                    old(self).chr_regs@[1]@.update(0, v)
                } else if a >= 0x8000 && reg == 0xE {
                    old(self).chr_regs@[1]@.update(1, v)
                } else {
                    old(self).chr_regs@[1]@
                })
                &&& final(self).mirroring == (if a >= 0x8000 && reg == 0xF {
                    if value & 1 != 0 { NametableMirror::Horizontal } else { NametableMirror::Vertical }
                } else {
                    old(self).mirroring
                })
            }),
            final(self).latches == old(self).latches,
            final(self).prg_banks == old(self).prg_banks,
            final(self).chr_banks == old(self).chr_banks,
            final(self).vram == old(self).vram,
            final(self).palette_ram == old(self).palette_ram,
            final(self).controllers == old(self).controllers,
    {
        let a = mirror_addr(addr);
        let page = addr_to_page(a);
        if page == 0x00 || page == 0x10 {
            self.cpu_ram.set(a as usize, value);
        } else if page == 0x60 || page == 0x70 {
            self.prg_ram.set((a - 0x6000) as usize, value);
        } else if a >= 0x8000 {
            let reg = a / 0x1000;
            let v = (value & 0x1F) as usize;
            if reg == 0xA {
                self.prg_bank_idx = ((value & 0x0F) as usize) % self.prg_banks.len();
            } else if reg == 0xB {
                self.chr_regs[0][0] = v;
            } else if reg == 0xC {
                self.chr_regs[0][1] = v;
            } else if reg == 0xD {
                self.chr_regs[1][0] = v;
            } else if reg == 0xE {
                self.chr_regs[1][1] = v;
            } else if reg == 0xF {
                self.mirroring = if value & 1 != 0 {
                    NametableMirror::Horizontal
                } else {
                    NametableMirror::Vertical
                };
            }
        }
    }

    pub fn ppu_read(&self, addr: u16) -> (r: u8)
        requires
            self.wf(),
            self.chr_banks@.len() > 0,
        ensures
            r == self.spec_ppu_read(addr),
    {
        let a = addr % 0x4000;
        if a >= 0x3F00 {
            self.palette_ram[palette_index(a)]
        } else if a < 0x1000 {
            let bank = self.active_chr_bank(0);
            self.chr_banks[bank][a as usize]
        } else if a < 0x2000 {
            let bank = self.active_chr_bank(1);
            self.chr_banks[bank][(a - 0x1000) as usize]
        } else {
            self.vram[mirror_nametable_addr(a, self.mirroring) as usize]
        }
    }

    /// A rendering fetch: the byte comes from the bank selected before the
    /// fetch, and fetching $0FD8-$0FDF, $0FE8-$0FEF, $1FD8-$1FDF or
    /// $1FE8-$1FEF then flips the matching latch.
    pub fn ppu_fetch(&mut self, addr: u16, dot: u64) -> (r: u8)
        requires
            old(self).wf(),
            old(self).chr_banks@.len() > 0,
        ensures
            final(self).wf(),
            r == old(self).spec_ppu_read(addr),
            final(self).latches@ == (if (addr as int) % 0x4000 < 0x2000 {
                latches_after(old(self).latches@, (addr as int) % 0x4000)
            } else {
                old(self).latches@
            }),
            final(self).cpu_ram == old(self).cpu_ram,
            final(self).prg_banks == old(self).prg_banks,
            final(self).prg_bank_idx == old(self).prg_bank_idx,
            final(self).prg_ram == old(self).prg_ram,
            final(self).chr_banks == old(self).chr_banks,
            final(self).chr_regs == old(self).chr_regs,
            final(self).mirroring == old(self).mirroring,
            final(self).vram == old(self).vram,
            final(self).palette_ram == old(self).palette_ram,
    {
        let a = addr % 0x4000;
        let value = self.ppu_read(a);
        assert(old(self).spec_ppu_read(a) == old(self).spec_ppu_read(addr));
        if a < 0x2000 {
            self.check_latch_trigger(a);
        }
        value
    }

    /// Nametable and palette writes; the pattern tables are ROM.
    pub fn ppu_write(&mut self, addr: u16, value: u8)
        requires
            old(self).wf(),
        ensures
            final(self).wf(),
            ({
                let a = (addr as int) % 0x4000;
                &&& a >= 0x3F00 ==> final(self).palette_ram@ == old(self).palette_ram@.update(palette_slot(a as u16), value)
                    && final(self).vram == old(self).vram
                &&& 0x2000 <= a < 0x3F00 ==> final(self).vram@ == old(self).vram@.update(nt_offset(a as u16, old(self).mirroring), value)
                    && final(self).palette_ram == old(self).palette_ram
                &&& a < 0x2000 ==> final(self).vram == old(self).vram && final(self).palette_ram == old(self).palette_ram
            }),
            final(self).cpu_ram == old(self).cpu_ram,
            final(self).prg_banks == old(self).prg_banks,
            final(self).prg_bank_idx == old(self).prg_bank_idx,
            final(self).prg_ram == old(self).prg_ram,
            final(self).chr_banks == old(self).chr_banks,
            final(self).chr_regs == old(self).chr_regs,
            final(self).latches == old(self).latches,
            final(self).mirroring == old(self).mirroring,
    {
        let a = addr % 0x4000;
        if a >= 0x3F00 {
            let i = palette_index(a);
            self.palette_ram.set(i, value);
        } else if a >= 0x2000 {
            let i = mirror_nametable_addr(a, self.mirroring) as usize;
            self.vram.set(i, value);
        }
    }

    pub fn code_start(&self) -> (r: u16)
        requires
            self.wf(),
            self.prg_banks@.len() >= 1,
        ensures
            r == word(self.spec_cpu_read(RESET_TARGET_ADDR), self.spec_cpu_read(0xFFFD)),
    {
        make_word(self.cpu_read(RESET_TARGET_ADDR), self.cpu_read(RESET_TARGET_ADDR + 1))
    }

    pub fn poll_irq(&self) -> (r: bool)
        ensures
            !r,
    {
        false
    }

    pub fn mapper_id(&self) -> (r: u8)
        ensures
            r == 10,
    {
        10
    }

    /// The PRG RAM, for battery saves, when the cartridge has a battery.
    pub fn sram_data(&self) -> (r: Option<&[u8]>)
        ensures
            !self.has_battery ==> r is None,
            self.has_battery ==> (r matches Some(d) && d@ == self.prg_ram@),
    {
        if self.has_battery {
            Some(self.prg_ram.as_slice())
        } else {
            None
        }
    }

    /// The battery-backed PRG RAM, for filling from a save.
    pub fn sram_data_mut(&mut self) -> (r: Option<&mut [u8]>)
        ensures
            !old(self).has_battery ==> r is None && final(self).prg_ram == old(self).prg_ram,
            old(self).has_battery ==> (r matches Some(d) && d@ == old(self).prg_ram@
                && final(self).prg_ram@ == final(d)@),
            final(self).cpu_ram == old(self).cpu_ram,
            final(self).prg_banks == old(self).prg_banks,
            final(self).prg_bank_idx == old(self).prg_bank_idx,
            final(self).has_battery == old(self).has_battery,
            final(self).chr_banks == old(self).chr_banks,
            final(self).chr_regs == old(self).chr_regs,
            final(self).latches == old(self).latches,
            final(self).mirroring == old(self).mirroring,
            final(self).vram == old(self).vram,
            final(self).palette_ram == old(self).palette_ram,
            final(self).controllers == old(self).controllers,
    {
        if self.has_battery {
            Some(self.prg_ram.as_mut_slice())
        } else {
            None
        }
    }
}

impl MMC4Mapper {
    /// The bytes `save_state` appends.
    pub open spec fn state_bytes(&self) -> Seq<u8> {
        self.cpu_ram@
            + enc_u8(self.prg_bank_idx as u8)
            + self.prg_ram@
            + enc_u8(self.chr_regs@[0]@[0] as u8)
            + enc_u8(self.chr_regs@[0]@[1] as u8)
            + enc_u8(self.chr_regs@[1]@[0] as u8)
            + enc_u8(self.chr_regs@[1]@[1] as u8)
            + enc_u8(self.latches@[0] as u8)
            + enc_u8(self.latches@[1] as u8)
            + enc_u8(mirror_code(self.mirroring))
            + self.vram@
            + self.palette_ram@
            + controllers_bytes(self.controllers)
    }

    /// Length of the saved state.
    pub open spec fn state_len(&self) -> nat {
        (CPU_RAM_SIZE + PRG_RAM_8K + VRAM_SIZE + PALETTE_SIZE + 2 * CONTROLLER_STATE_LEN + 8) as nat
    }

    /// Every register that the state stores in fewer bits than it is held in
    /// fits in those bits.
    pub open spec fn fits(&self) -> bool {
        &&& self.prg_bank_idx < 256
        &&& self.chr_regs@[0]@[0] < 256
        &&& self.chr_regs@[0]@[1] < 256
        &&& self.chr_regs@[1]@[0] < 256
        &&& self.chr_regs@[1]@[1] < 256
        &&& self.latches@[0] < 256
        &&& self.latches@[1] < 256
    }

    /// The stored bytes at `p` hold a state that this cartridge can take.
    pub open spec fn state_valid(&self, d: Seq<u8>, p: int) -> bool {
        &&& (self.prg_banks@.len() > 0 ==> (d[(p + CPU_RAM_SIZE)] as usize) < self.prg_banks@.len())
        &&& (d[(p + CPU_RAM_SIZE + PRG_RAM_8K + 5)] as usize) < 2
        &&& (d[(p + CPU_RAM_SIZE + PRG_RAM_8K + 6)] as usize) < 2
        &&& mirror_from_code(d[(p + CPU_RAM_SIZE + PRG_RAM_8K + 7)]) is Some
    }

    /// What `load_state` answers for the bytes at `p`.
    pub open spec fn load_outcome(&self, d: Seq<u8>, p: int) -> Result<(), StateError> {
        if p + self.state_len() > d.len() {
            Err(StateError::UnexpectedEof)
        } else if !self.state_valid(d, p) {
            Err(StateError::InvalidValue)
        } else {
            Ok(())
        }
    }

    /// Every saved field holds what the bytes at `p` store.
    pub open spec fn loaded_from(&self, d: Seq<u8>, p: int) -> bool {
        &&& self.cpu_ram@ == d.subrange(p, p + CPU_RAM_SIZE)
        &&& self.prg_bank_idx == d[(p + CPU_RAM_SIZE)] as usize
        &&& self.prg_ram@ == d.subrange((p + CPU_RAM_SIZE + 1), (p + CPU_RAM_SIZE + 1) + PRG_RAM_8K)
        &&& self.chr_regs@[0]@[0] == d[(p + CPU_RAM_SIZE + PRG_RAM_8K + 1)] as usize
        &&& self.chr_regs@[0]@[1] == d[(p + CPU_RAM_SIZE + PRG_RAM_8K + 2)] as usize
        &&& self.chr_regs@[1]@[0] == d[(p + CPU_RAM_SIZE + PRG_RAM_8K + 3)] as usize
        &&& self.chr_regs@[1]@[1] == d[(p + CPU_RAM_SIZE + PRG_RAM_8K + 4)] as usize
        &&& self.latches@[0] == d[(p + CPU_RAM_SIZE + PRG_RAM_8K + 5)] as usize
        &&& self.latches@[1] == d[(p + CPU_RAM_SIZE + PRG_RAM_8K + 6)] as usize
        &&& self.mirroring == mirror_from_code(d[(p + CPU_RAM_SIZE + PRG_RAM_8K + 7)])->0
        &&& self.vram@ == d.subrange((p + CPU_RAM_SIZE + PRG_RAM_8K + 8), (p + CPU_RAM_SIZE + PRG_RAM_8K + 8) + VRAM_SIZE)
        &&& self.palette_ram@ == d.subrange((p + CPU_RAM_SIZE + PRG_RAM_8K + VRAM_SIZE + 8), (p + CPU_RAM_SIZE + PRG_RAM_8K + VRAM_SIZE + 8) + PALETTE_SIZE)
        &&& self.controllers@[0] == controller_at(d, (p + CPU_RAM_SIZE + PRG_RAM_8K + VRAM_SIZE + PALETTE_SIZE + 8))
        &&& self.controllers@[1] == controller_at(d, (p + CPU_RAM_SIZE + PRG_RAM_8K + VRAM_SIZE + PALETTE_SIZE + 8) + CONTROLLER_STATE_LEN)
    }

    /// The two agree on every saved field.
    pub open spec fn same_state(&self, other: &Self) -> bool {
        &&& self.cpu_ram@ == other.cpu_ram@
        &&& self.prg_bank_idx == other.prg_bank_idx
        &&& self.prg_ram@ == other.prg_ram@
        &&& self.chr_regs@[0]@[0] == other.chr_regs@[0]@[0]
        &&& self.chr_regs@[0]@[1] == other.chr_regs@[0]@[1]
        &&& self.chr_regs@[1]@[0] == other.chr_regs@[1]@[0]
        &&& self.chr_regs@[1]@[1] == other.chr_regs@[1]@[1]
        &&& self.latches@[0] == other.latches@[0]
        &&& self.latches@[1] == other.latches@[1]
        &&& self.mirroring == other.mirroring
        &&& self.vram@ == other.vram@
        &&& self.palette_ram@ == other.palette_ram@
        &&& self.controllers@ == other.controllers@
    }

    /// The two agree on every field that the state does not store.
    pub open spec fn keeps_unsaved(&self, other: &Self) -> bool {
        &&& self.prg_banks == other.prg_banks
        &&& self.chr_banks == other.chr_banks
        &&& self.has_battery == other.has_battery
    }

    /// The two come from cartridges of the same shape.
    pub open spec fn same_layout(&self, other: &Self) -> bool {
        &&& self.prg_banks@.len() == other.prg_banks@.len()
    }

    #[verifier::spinoff_prover]
    pub fn save_state(&self, w: &mut SavestateWriter)
        ensures
            final(w).buf@ == old(w).buf@ + self.state_bytes(),
    {
        w.write_bytes(self.cpu_ram.as_slice());
        w.write_u8(self.prg_bank_idx as u8);
        w.write_bytes(self.prg_ram.as_slice());
        w.write_u8(self.chr_regs[0][0] as u8);
        w.write_u8(self.chr_regs[0][1] as u8);
        w.write_u8(self.chr_regs[1][0] as u8);
        w.write_u8(self.chr_regs[1][1] as u8);
        w.write_u8(self.latches[0] as u8);
        w.write_u8(self.latches[1] as u8);
        save_mirroring(w, self.mirroring);
        w.write_bytes(self.vram.as_slice());
        w.write_bytes(self.palette_ram.as_slice());
        save_controllers(w, &self.controllers);
        assert(w.buf@ =~= old(w).buf@ + self.state_bytes());
    }

    /// Restores a state written by `save_state`. Nothing changes unless the
    /// whole state is there and holds values this cartridge can take.
    #[verifier::spinoff_prover]
    pub fn load_state(&mut self, r: &mut SavestateReader) -> (res: Result<(), StateError>)
        requires
            old(self).wf(),
            old(r).wf(),
        ensures
            final(r).wf(),
            final(r).data@ == old(r).data@,
            res == old(self).load_outcome(old(r).data@, old(r).pos as int),
            res is Err ==> *final(self) == *old(self) && final(r).pos == old(r).pos,
            res is Ok ==> final(self).wf() && final(self).loaded_from(old(r).data@, old(r).pos as int)
                && final(self).keeps_unsaved(&*old(self)) && final(self).same_layout(&*old(self))
                && final(r).pos == old(r).pos + old(self).state_len(),
    {
        let ghost d = r.data@;
        let ghost p = r.pos as int;
        let start = r.pos;
        if r.remaining_len() < CPU_RAM_SIZE + PRG_RAM_8K + VRAM_SIZE + PALETTE_SIZE + 2 * CONTROLLER_STATE_LEN + 8 {
            return Err(StateError::UnexpectedEof);
        }
        let cpu_ram = r.take_bytes(CPU_RAM_SIZE);
        let prg_bank_idx = r.take_u8() as usize;
        let prg_ram = r.take_bytes(PRG_RAM_8K);
        let chr00 = r.take_u8() as usize;
        let chr01 = r.take_u8() as usize;
        let chr10 = r.take_u8() as usize;
        let chr11 = r.take_u8() as usize;
        let latch0 = r.take_u8() as usize;
        let latch1 = r.take_u8() as usize;
        let mirroring_code = r.take_u8();
        let vram = r.take_bytes(VRAM_SIZE);
        let palette_ram = r.take_bytes(PALETTE_SIZE);
        let controllers = take_controllers(r);
        let mirroring = match mirroring_from_code(mirroring_code) {
            Some(m) => m,
            None => {
                r.rewind(start);
                return Err(StateError::InvalidValue);
            },
        };
        if (self.prg_banks.len() > 0 && prg_bank_idx >= self.prg_banks.len())
            || (latch0 >= 2)
            || (latch1 >= 2) {
            r.rewind(start);
            return Err(StateError::InvalidValue);
        }
        self.cpu_ram = cpu_ram;
        self.prg_bank_idx = prg_bank_idx;
        self.prg_ram = prg_ram;
        self.mirroring = mirroring;
        self.vram = vram;
        self.palette_ram = palette_ram;
        self.controllers = controllers;
        self.chr_regs = [[chr00, chr01], [chr10, chr11]];
        self.latches = [latch0, latch1];
        Ok(())
    }

    /// Saving a state and loading it into a cartridge of the same shape
    /// succeeds and restores every saved field.
    #[verifier::spinoff_prover]
    pub proof fn lemma_state_roundtrip(o: Self, m: Self, n: Self, d: Seq<u8>, p: int)
        requires
            o.wf(),
            m.wf(),
            m.fits(),
            o.same_layout(&m),
            n.same_layout(&m),
            stored_at(d, p, m.state_bytes()),
        ensures
            o.load_outcome(d, p) == Ok::<(), StateError>(()),
            n.loaded_from(d, p) ==> n.same_state(&m),
    {
        let s0 = m.cpu_ram@;
        let s1 = s0 + enc_u8(m.prg_bank_idx as u8);
        let s2 = s1 + m.prg_ram@;
        let s3 = s2 + enc_u8(m.chr_regs@[0]@[0] as u8);
        let s4 = s3 + enc_u8(m.chr_regs@[0]@[1] as u8);
        let s5 = s4 + enc_u8(m.chr_regs@[1]@[0] as u8);
        let s6 = s5 + enc_u8(m.chr_regs@[1]@[1] as u8);
        let s7 = s6 + enc_u8(m.latches@[0] as u8);
        let s8 = s7 + enc_u8(m.latches@[1] as u8);
        let s9 = s8 + enc_u8(mirror_code(m.mirroring));
        let s10 = s9 + m.vram@;
        let s11 = s10 + m.palette_ram@;
        let s12 = s11 + controllers_bytes(m.controllers);
        lemma_stored_split(d, p, s11, controllers_bytes(m.controllers));
        lemma_stored_split(d, p, s10, m.palette_ram@);
        lemma_stored_split(d, p, s9, m.vram@);
        lemma_stored_split(d, p, s8, enc_u8(mirror_code(m.mirroring)));
        lemma_stored_split(d, p, s7, enc_u8(m.latches@[1] as u8));
        lemma_stored_split(d, p, s6, enc_u8(m.latches@[0] as u8));
        lemma_stored_split(d, p, s5, enc_u8(m.chr_regs@[1]@[1] as u8));
        lemma_stored_split(d, p, s4, enc_u8(m.chr_regs@[1]@[0] as u8));
        lemma_stored_split(d, p, s3, enc_u8(m.chr_regs@[0]@[1] as u8));
        lemma_stored_split(d, p, s2, enc_u8(m.chr_regs@[0]@[0] as u8));
        lemma_stored_split(d, p, s1, m.prg_ram@);
        lemma_stored_split(d, p, s0, enc_u8(m.prg_bank_idx as u8));
        lemma_stored_u8(d, (p + CPU_RAM_SIZE), m.prg_bank_idx as u8);
        lemma_stored_u8(d, (p + CPU_RAM_SIZE + PRG_RAM_8K + 1), m.chr_regs@[0]@[0] as u8);
        lemma_stored_u8(d, (p + CPU_RAM_SIZE + PRG_RAM_8K + 2), m.chr_regs@[0]@[1] as u8);
        lemma_stored_u8(d, (p + CPU_RAM_SIZE + PRG_RAM_8K + 3), m.chr_regs@[1]@[0] as u8);
        lemma_stored_u8(d, (p + CPU_RAM_SIZE + PRG_RAM_8K + 4), m.chr_regs@[1]@[1] as u8);
        lemma_stored_u8(d, (p + CPU_RAM_SIZE + PRG_RAM_8K + 5), m.latches@[0] as u8);
        lemma_stored_u8(d, (p + CPU_RAM_SIZE + PRG_RAM_8K + 6), m.latches@[1] as u8);
        lemma_stored_u8(d, (p + CPU_RAM_SIZE + PRG_RAM_8K + 7), mirror_code(m.mirroring));
        lemma_mirror_code_roundtrip(m.mirroring);
        lemma_stored_controllers(d, (p + CPU_RAM_SIZE + PRG_RAM_8K + VRAM_SIZE + PALETTE_SIZE + 8), m.controllers);
        if n.loaded_from(d, p) {
            assert(n.controllers@ =~= m.controllers@);
        }
    }
}

impl MMC4Mapper {
    /// Where a bulk copy of `size` bytes from `addr` reads: the pattern
    /// table's 4KB bank from the address on, or the nametable RAM from the
    /// mirrored address on ($2000-$3FFF).
    pub open spec fn copy_run(&self, addr: u16, size: int) -> Option<(Seq<u8>, int, int)> {
        let a = (addr as int) % 0x4000;
        if a < 0x2000 {
            Some((self.chr_banks@[self.spec_active_chr_bank(a / 0x1000)]@, a % 0x1000, size))
        } else {
            Some((self.vram@, nt_offset(a as u16, self.mirroring), size))
        }
    }

    /// Copies `size` bytes of PPU memory from `addr` to the front of `dest`,
    /// from one run of the memory behind that address; the run must hold
    /// them.
    pub fn ppu_copy(&self, addr: u16, dest: &mut Vec<u8>, size: usize)
        requires
            self.wf(),
            self.chr_banks@.len() > 0,
            size <= old(dest)@.len(),
            ({
                let a = (addr as int) % 0x4000;
                &&& a < 0x2000 ==> a % 0x1000 + size <= 0x1000
                &&& a >= 0x2000 ==> nt_offset(a as u16, self.mirroring) + size <= VRAM_SIZE
            }),
        ensures
            match self.copy_run(addr, size as int) {
                Some((src, off, n)) => final(dest)@ == copied_into(old(dest)@, src, off, n),
                None => final(dest)@ == old(dest)@,
            },
    {
        let a = addr % 0x4000;
        if a < 0x2000 {
            let bank = self.active_chr_bank((a / 0x1000) as usize);
            copy_bank_to_front(dest, &self.chr_banks[bank], (a % 0x1000) as usize, size);
        } else {
            let v = mirror_nametable_addr(a, self.mirroring) as usize;
            copy_vec_to_front(dest, &self.vram, v, size);
        }
    }
}

} // verus!
