//! Taito X1-005 (mapper 80, and 207 with nametables from the CHR registers):
//! registers at $7EF0-$7EFF, three switchable 8KB PRG banks before a fixed
//! last one, two 2KB and four 1KB CHR banks, and 128 bytes of battery RAM
//! at $7F00 guarded by a permission value.

use vstd::prelude::*;
use crate::bus::{NametableMirror, CPU_RAM_SIZE, VRAM_SIZE, PALETTE_SIZE, RESET_TARGET_ADDR, spec_mirroring_from_flags, mirroring_from_flags, nt_offset, mirror_nametable_addr, palette_slot, palette_index, word, make_word};
use crate::ppu_bus::{zeroed, filled};
use crate::controller::Controller;
use crate::mapper::common::{new_controllers, split_16k_to_8k, ram_with_saved};
use crate::mapper::irem_g101::sat_sub;

use crate::savestate::{SavestateWriter, SavestateReader, StateError, enc_u8, stored_at, lemma_stored_split, lemma_stored_u8, copy_into_array};
use crate::controller::{controllers_bytes, controller_at, save_controllers, take_controllers, lemma_stored_controllers, CONTROLLER_STATE_LEN};
use crate::ppu_bus::{mirror_code, mirror_from_code, mirroring_from_code, save_mirroring, lemma_mirror_code_roundtrip};

verus! {

pub const PRG_BANK_SIZE: usize = 0x2000;
pub const CHR_BANK_SIZE: usize = 0x0400;
pub const RAM_SIZE: usize = 0x80;
/// The permission value that opens the internal RAM.
pub const RAM_ENABLE_VALUE: u8 = 0xA3;

pub struct TaitoX1005Mapper {
    pub controllers: [Controller; 2],
    pub prg_rom: Vec<[u8; PRG_BANK_SIZE]>,
    pub chr_8k: Vec<[u8; 8192]>,
    pub prg_regs: [u8; 3],
    pub chr_regs: [u8; 6],
    pub ram_permission: u8,
    pub mirroring: NametableMirror,
    pub alternate_mirroring: bool,
    pub nt_pages: [u8; 4],
    pub ram: Vec<u8>,
    pub vram: Vec<u8>,
    pub cpu_ram: Vec<u8>,
    pub palette_ram: Vec<u8>,
}

impl TaitoX1005Mapper {
    pub open spec fn wf(&self) -> bool {
        &&& self.cpu_ram@.len() == CPU_RAM_SIZE
        &&& self.ram@.len() == RAM_SIZE
        &&& self.vram@.len() == VRAM_SIZE
        &&& self.palette_ram@.len() == PALETTE_SIZE
        &&& 8 * self.chr_8k@.len() <= usize::MAX
    }

    pub open spec fn spec_ram_enabled(&self) -> bool {
        self.ram_permission == RAM_ENABLE_VALUE
    }

    pub open spec fn spec_prg_bank_at(&self, addr: u16) -> int {
        let len = self.prg_rom@.len() as int;
        let m: int = if len == 0 { 1 } else { len };
        if addr >= 0xE000 {
            sat_sub(len, 1) % m
        } else {
            self.prg_regs@[((addr as int) - 0x8000) / 0x2000] as int % m
        }
    }

    pub open spec fn spec_cpu_read(&self, addr: u16) -> u8 {
        if addr <= 0x1FFF {
            self.cpu_ram@[(addr as int) % 0x800]
        } else if 0x7F00 <= addr <= 0x7FFF && self.spec_ram_enabled() {
            self.ram@[(addr as int) % 0x80]
        } else if addr >= 0x8000 {
            let bank = self.spec_prg_bank_at(addr);
            if bank < self.prg_rom@.len() { self.prg_rom@[bank][(addr as int) % 0x2000] } else { 0 }
        } else {
            0
        }
    }

    pub open spec fn spec_chr_index(&self, addr: u16) -> int {
        let slot = ((addr as int) / 1024) % 8;
        let cr = self.chr_regs@;
        let raw: int = if slot == 0 {
            cr[0] as int
        } else if slot == 1 {
            cr[0] as int + 1
        } else if slot == 2 {
            cr[1] as int
        } else if slot == 3 {
            cr[1] as int + 1
        } else {
            cr[slot - 2] as int
        };
        let n: int = if self.chr_8k@.len() == 0 { 1 } else { 8 * self.chr_8k@.len() as int };
        raw % n
    }

    pub open spec fn spec_nt_index(&self, addr: u16) -> int {
        if self.alternate_mirroring {
            let page = self.nt_pages@[((addr as int) / 1024) % 4] as int;
            (page * 1024 + (addr as int) % 1024) % 0x800
        } else {
            nt_offset(addr, self.mirroring)
        }
    }

    pub open spec fn spec_ppu_read(&self, addr: u16) -> u8 {
        if addr <= 0x1FFF {
            let idx = self.spec_chr_index(addr);
            if self.chr_8k@.len() == 0 { 0 } else { self.chr_8k@[idx / 8][(idx % 8) * 1024 + (addr as int) % 1024] }
        } else if addr <= 0x3EFF {
            self.vram@[self.spec_nt_index(addr)]
        } else if addr <= 0x3FFF {
            self.palette_ram@[palette_slot(addr)]
        } else {
            0
        }
    }

    /// The internal RAM starts from the saved data; every register at 0.
    pub fn new(flags: u8, prg_banks_16k: Vec<[u8; 16384]>, chr_banks_8k: Vec<[u8; 8192]>, alternate_mirroring: bool, sram_data: Option<Vec<u8>>) -> (m: TaitoX1005Mapper)
        requires
            2 * prg_banks_16k@.len() <= usize::MAX,
            8 * chr_banks_8k@.len() <= usize::MAX,
        ensures
            m.wf(),
            m.prg_rom@.len() == 2 * prg_banks_16k@.len(),
            forall|i: int| 0 <= i < m.prg_rom@.len() ==> #[trigger] m.prg_rom@[i]@ == prg_banks_16k@[i / 2]@.subrange(
                (i % 2) * 8192,
                (i % 2) * 8192 + 8192,
            ),
            m.chr_8k@ == chr_banks_8k@,
            forall|i: int| 0 <= i < 3 ==> m.prg_regs@[i] == 0,
            forall|i: int| 0 <= i < 6 ==> m.chr_regs@[i] == 0,
            forall|i: int| 0 <= i < 4 ==> m.nt_pages@[i] == 0,
            m.ram_permission == 0,
            m.mirroring == spec_mirroring_from_flags(flags),
            m.alternate_mirroring == alternate_mirroring,
            forall|i: int| 0 <= i < RAM_SIZE ==> #[trigger] m.ram@[i] == (match sram_data {
                Some(d) => if i < d@.len() { d@[i] } else { 0u8 },
                None => 0u8,
            }),
            m.vram@ == Seq::new(VRAM_SIZE as nat, |i: int| 0u8),
            m.cpu_ram@ == Seq::new(CPU_RAM_SIZE as nat, |i: int| 0u8),
            m.palette_ram@ == Seq::new(PALETTE_SIZE as nat, |i: int| 0x0Fu8),
    {
        let prg_rom = split_16k_to_8k(&prg_banks_16k);
        let ram = ram_with_saved(RAM_SIZE, &sram_data);
        TaitoX1005Mapper {
            controllers: new_controllers(),
            prg_rom,
            chr_8k: chr_banks_8k,
            prg_regs: [0, 0, 0],
            chr_regs: [0; 6],
            ram_permission: 0,
            mirroring: mirroring_from_flags(flags),
            alternate_mirroring,
            nt_pages: [0; 4],
            ram,
            vram: zeroed(VRAM_SIZE),
            cpu_ram: zeroed(CPU_RAM_SIZE),
            palette_ram: filled(PALETTE_SIZE, 0x0F),
        }
    }

    /// Whether the internal RAM is open.
    pub fn ram_enabled(&self) -> (r: bool)
        ensures
            r == self.spec_ram_enabled(),
    {
        self.ram_permission == RAM_ENABLE_VALUE
    }

    fn chr_1k_index(&self, addr: u16) -> (r: usize)
        requires
            self.wf(),
        ensures
            r as int == self.spec_chr_index(addr),
            self.chr_8k@.len() > 0 ==> r < 8 * self.chr_8k@.len(),
    {
        let slot = ((addr / 1024) % 8) as usize;
        let raw: usize = if slot == 0 {
            self.chr_regs[0] as usize
        } else if slot == 1 {
            self.chr_regs[0] as usize + 1
        } else if slot == 2 {
            self.chr_regs[1] as usize
        } else if slot == 3 {
            self.chr_regs[1] as usize + 1
        } else {
            self.chr_regs[slot - 2] as usize
        };
        let n = if self.chr_8k.len() == 0 { 1 } else { 8 * self.chr_8k.len() };
        raw % n
    }

    fn nt_addr(&self, addr: u16) -> (r: usize)
        requires
            self.wf(),
        ensures
            r as int == self.spec_nt_index(addr),
            r < VRAM_SIZE,
    {
        if self.alternate_mirroring {
            let page = self.nt_pages[((addr / 1024) % 4) as usize] as usize;
            (page * 1024 + (addr % 1024) as usize) % 0x800
        } else {
            mirror_nametable_addr(addr, self.mirroring) as usize
        }
    }

    /// The board after a write of `value` to register `addr` ($7EF0-$7EFF),
    /// compared with the board `o` before it.
    pub open spec fn register_written(&self, o: &Self, addr: u16, value: u8) -> bool {
        &&& self.wf()
        &&& ({
                let r = (addr as int) - 0x7EF0;
                let alt = o.alternate_mirroring;
                let p = value >> 7u8;
                &&& r < 6 ==> self.chr_regs@ == o.chr_regs@.update(r, value)
                &&& r >= 6 ==> self.chr_regs == o.chr_regs
                &&& self.nt_pages@ == (if r == 0 && alt {
                    o.nt_pages@.update(0, p).update(1, p)
                } else if r == 1 && alt {
                    o.nt_pages@.update(2, p).update(3, p)
                } else {
                    o.nt_pages@
                })
                &&& self.mirroring == (if 6 <= r <= 7 && !alt {
                    if value & 1 != 0 { NametableMirror::Vertical } else { NametableMirror::Horizontal }
                } else {
                    o.mirroring
                })
                &&& self.ram_permission == (if 8 <= r <= 9 { value } else { o.ram_permission })
                &&& r >= 10 ==> self.prg_regs@ == o.prg_regs@.update((r - 10) / 2, value)
                &&& r < 10 ==> self.prg_regs == o.prg_regs
            })
        &&& self.alternate_mirroring == o.alternate_mirroring
        &&& self.cpu_ram == o.cpu_ram
        &&& self.ram == o.ram
        &&& self.prg_rom == o.prg_rom
        &&& self.chr_8k == o.chr_8k
        &&& self.vram == o.vram
        &&& self.palette_ram == o.palette_ram
        &&& self.controllers == o.controllers
    }

    /// $7EF0/$7EF1: 2KB CHR banks (on 207 also nametable pages from bit 7);
    /// $7EF2-$7EF5: 1KB CHR banks; $7EF6/$7EF7: mirroring (80 only);
    /// $7EF8/$7EF9: RAM permission; $7EFA-$7EFF: PRG banks in pairs.
    fn write_register(&mut self, addr: u16, value: u8)
        requires
            old(self).wf(),
            0x7EF0 <= addr <= 0x7EFF,
        ensures
            final(self).register_written(&*old(self), addr, value),
    {
        let r = (addr - 0x7EF0) as usize;
        if r < 6 {
            self.chr_regs[r] = value;
            if r < 2 && self.alternate_mirroring {
                let p = value >> 7;
                self.nt_pages[2 * r] = p;
                self.nt_pages[2 * r + 1] = p;
            }
        } else if r < 8 {
            if !self.alternate_mirroring {
                self.mirroring = if value & 0x01 != 0 { NametableMirror::Vertical } else { NametableMirror::Horizontal };
            }
        } else if r < 10 {
            self.ram_permission = value;
        } else {
            self.prg_regs[(r - 10) / 2] = value;
        }
    }

    pub fn cpu_peek(&self, addr: u16) -> (r: u8)
        requires
            self.wf(),
        ensures
            r == self.spec_cpu_read(addr),
    {
        if addr <= 0x1FFF {
            return self.cpu_ram[(addr % 0x800) as usize];
        }
        if 0x7F00 <= addr && addr <= 0x7FFF && self.ram_enabled() {
            return self.ram[(addr % 0x80) as usize];
        }
        if addr < 0x8000 {
            return 0;
        }
        let len = self.prg_rom.len();
        let m = if len == 0 { 1 } else { len };
        let bank: usize = if addr >= 0xE000 {
            len.saturating_sub(1) % m
        } else {
            self.prg_regs[((addr - 0x8000) / 0x2000) as usize] as usize % m
        };
        if bank < len {
            self.prg_rom[bank][(addr % 0x2000) as usize]
        } else {
            0
        }
    }

    pub fn cpu_read(&self, addr: u16) -> (r: u8)
        requires
            self.wf(),
        ensures
            r == self.spec_cpu_read(addr),
    {
        self.cpu_peek(addr)
    }

    pub fn cpu_write(&mut self, addr: u16, value: u8)
        requires
            old(self).wf(),
        ensures
            final(self).wf(),
            addr <= 0x1FFF ==> final(self).cpu_ram@ == old(self).cpu_ram@.update((addr as int) % 0x800, value),
            addr > 0x1FFF ==> final(self).cpu_ram == old(self).cpu_ram,
            0x7F00 <= addr <= 0x7FFF && old(self).spec_ram_enabled() ==> final(self).ram@ == old(self).ram@.update((addr as int) % 0x80, value),
            !(0x7F00 <= addr <= 0x7FFF && old(self).spec_ram_enabled()) ==> final(self).ram == old(self).ram,
            !(0x7EF0 <= addr <= 0x7EFF) ==> final(self).prg_regs == old(self).prg_regs
                && final(self).chr_regs == old(self).chr_regs && final(self).nt_pages == old(self).nt_pages
                && final(self).mirroring == old(self).mirroring && final(self).ram_permission == old(self).ram_permission,
            0x7EF0 <= addr <= 0x7EFF ==> final(self).register_written(&*old(self), addr, value),
            final(self).alternate_mirroring == old(self).alternate_mirroring,
            final(self).prg_rom == old(self).prg_rom,
            final(self).chr_8k == old(self).chr_8k,
            final(self).vram == old(self).vram,
            final(self).palette_ram == old(self).palette_ram,
    {
        if addr <= 0x1FFF {
            self.cpu_ram.set((addr % 0x800) as usize, value);
        } else if 0x7EF0 <= addr && addr <= 0x7EFF {
            self.write_register(addr, value);
        } else if 0x7F00 <= addr && addr <= 0x7FFF && self.ram_enabled() {
            self.ram.set((addr % 0x80) as usize, value);
        }
    }

    pub fn ppu_read(&self, addr: u16) -> (r: u8)
        requires
            self.wf(),
        ensures
            r == self.spec_ppu_read(addr),
    {
        if addr <= 0x1FFF {
            if self.chr_8k.len() == 0 {
                return 0;
            }
            let idx = self.chr_1k_index(addr);
            self.chr_8k[idx / 8][(idx % 8) * 1024 + (addr % 1024) as usize]
        } else if addr <= 0x3EFF {
            self.vram[self.nt_addr(addr)]
        } else if addr <= 0x3FFF {
            self.palette_ram[palette_index(addr)]
        } else {
            0
        }
    }

    /// Nametable and palette writes; the pattern tables are ROM.
    pub fn ppu_write(&mut self, addr: u16, value: u8)
        requires
            old(self).wf(),
        ensures
            final(self).wf(),
            0x2000 <= addr <= 0x3EFF ==> final(self).vram@ == old(self).vram@.update(old(self).spec_nt_index(addr), value),
            !(0x2000 <= addr <= 0x3EFF) ==> final(self).vram == old(self).vram,
            0x3F00 <= addr <= 0x3FFF ==> final(self).palette_ram@ == old(self).palette_ram@.update(palette_slot(addr), value),
            !(0x3F00 <= addr <= 0x3FFF) ==> final(self).palette_ram == old(self).palette_ram,
            final(self).cpu_ram == old(self).cpu_ram,
            final(self).ram == old(self).ram,
            final(self).prg_regs == old(self).prg_regs,
            final(self).chr_regs == old(self).chr_regs,
            final(self).nt_pages == old(self).nt_pages,
            final(self).mirroring == old(self).mirroring,
            final(self).prg_rom == old(self).prg_rom,
            final(self).chr_8k == old(self).chr_8k,
    {
        if 0x2000 <= addr && addr <= 0x3EFF {
            let i = self.nt_addr(addr);
            self.vram.set(i, value);
        } else if 0x3F00 <= addr && addr <= 0x3FFF {
            let i = palette_index(addr);
            self.palette_ram.set(i, value);
        }
    }

    pub fn code_start(&self) -> (r: u16)
        requires
            self.wf(),
        ensures
            r == word(self.spec_cpu_read(RESET_TARGET_ADDR), self.spec_cpu_read(0xFFFD)),
    {
        make_word(self.cpu_peek(RESET_TARGET_ADDR), self.cpu_peek(RESET_TARGET_ADDR + 1))
    }

    pub fn poll_irq(&self) -> (r: bool)
        ensures
            !r,
    {
        false
    }

    /// The internal RAM is always kept, battery or not.
    pub fn sram_data(&self) -> (r: Option<&[u8]>)
        ensures
            r matches Some(d) && d@ == self.ram@,
    {
        Some(self.ram.as_slice())
    }

    pub fn mapper_id(&self) -> (r: u8)
        ensures
            r == (if self.alternate_mirroring { 207u8 } else { 80u8 }),
    {
        if self.alternate_mirroring { 207 } else { 80 }
    }
}

impl TaitoX1005Mapper {
    /// The bytes `save_state` appends.
    pub open spec fn state_bytes(&self) -> Seq<u8> {
        self.cpu_ram@
            + self.ram@
            + self.vram@
            + self.palette_ram@
            + self.prg_regs@
            + self.chr_regs@
            + enc_u8(self.ram_permission)
            + self.nt_pages@
            + enc_u8(mirror_code(self.mirroring))
            + controllers_bytes(self.controllers)
    }

    /// Length of the saved state.
    pub open spec fn state_len(&self) -> nat {
        (CPU_RAM_SIZE + RAM_SIZE + VRAM_SIZE + PALETTE_SIZE + 2 * CONTROLLER_STATE_LEN + 15) as nat
    }

    /// Every register that the state stores in fewer bits than it is held in
    /// fits in those bits.
    pub open spec fn fits(&self) -> bool {
        true
    }

    /// The stored bytes at `p` hold a state that this cartridge can take.
    pub open spec fn state_valid(&self, d: Seq<u8>, p: int) -> bool {
        &&& mirror_from_code(d[(p + CPU_RAM_SIZE + RAM_SIZE + VRAM_SIZE + PALETTE_SIZE + 14)]) is Some
    }

    /// What `load_state` answers for the bytes at `p`.
    pub open spec fn load_outcome(&self, d: Seq<u8>, p: int) -> Result<(), StateError> {
        if p + self.state_len() > d.len() {
            Err(StateError::UnexpectedEof)
        } else if !self.state_valid(d, p) {
            Err(StateError::InvalidValue)
        } else {
            Ok(())
        }
    }

    /// Every saved field holds what the bytes at `p` store.
    pub open spec fn loaded_from(&self, d: Seq<u8>, p: int) -> bool {
        &&& self.cpu_ram@ == d.subrange(p, p + CPU_RAM_SIZE)
        &&& self.ram@ == d.subrange((p + CPU_RAM_SIZE), (p + CPU_RAM_SIZE) + RAM_SIZE)
        &&& self.vram@ == d.subrange((p + CPU_RAM_SIZE + RAM_SIZE), (p + CPU_RAM_SIZE + RAM_SIZE) + VRAM_SIZE)
        &&& self.palette_ram@ == d.subrange((p + CPU_RAM_SIZE + RAM_SIZE + VRAM_SIZE), (p + CPU_RAM_SIZE + RAM_SIZE + VRAM_SIZE) + PALETTE_SIZE)
        &&& self.prg_regs@ == d.subrange((p + CPU_RAM_SIZE + RAM_SIZE + VRAM_SIZE + PALETTE_SIZE), (p + CPU_RAM_SIZE + RAM_SIZE + VRAM_SIZE + PALETTE_SIZE) + 3)
        &&& self.chr_regs@ == d.subrange((p + CPU_RAM_SIZE + RAM_SIZE + VRAM_SIZE + PALETTE_SIZE + 3), (p + CPU_RAM_SIZE + RAM_SIZE + VRAM_SIZE + PALETTE_SIZE + 3) + 6)
        &&& self.ram_permission == d[(p + CPU_RAM_SIZE + RAM_SIZE + VRAM_SIZE + PALETTE_SIZE + 9)]
        &&& self.nt_pages@ == d.subrange((p + CPU_RAM_SIZE + RAM_SIZE + VRAM_SIZE + PALETTE_SIZE + 10), (p + CPU_RAM_SIZE + RAM_SIZE + VRAM_SIZE + PALETTE_SIZE + 10) + 4)
        &&& self.mirroring == mirror_from_code(d[(p + CPU_RAM_SIZE + RAM_SIZE + VRAM_SIZE + PALETTE_SIZE + 14)])->0
        &&& self.controllers@[0] == controller_at(d, (p + CPU_RAM_SIZE + RAM_SIZE + VRAM_SIZE + PALETTE_SIZE + 15))
        &&& self.controllers@[1] == controller_at(d, (p + CPU_RAM_SIZE + RAM_SIZE + VRAM_SIZE + PALETTE_SIZE + 15) + CONTROLLER_STATE_LEN)
    }

    /// The two agree on every saved field.
    pub open spec fn same_state(&self, other: &Self) -> bool {
        &&& self.cpu_ram@ == other.cpu_ram@
        &&& self.ram@ == other.ram@
        &&& self.vram@ == other.vram@
        &&& self.palette_ram@ == other.palette_ram@
        &&& self.prg_regs@ == other.prg_regs@
        &&& self.chr_regs@ == other.chr_regs@
        &&& self.ram_permission == other.ram_permission
        &&& self.nt_pages@ == other.nt_pages@
        &&& self.mirroring == other.mirroring
        &&& self.controllers@ == other.controllers@
    }

    /// The two agree on every field that the state does not store.
    pub open spec fn keeps_unsaved(&self, other: &Self) -> bool {
        &&& self.prg_rom == other.prg_rom
        &&& self.chr_8k == other.chr_8k
        &&& self.alternate_mirroring == other.alternate_mirroring
    }

    /// The two come from cartridges of the same shape.
    pub open spec fn same_layout(&self, other: &Self) -> bool {
        true
    }

    #[verifier::spinoff_prover]
    pub fn save_state(&self, w: &mut SavestateWriter)
        ensures
            final(w).buf@ == old(w).buf@ + self.state_bytes(),
    {
        w.write_bytes(self.cpu_ram.as_slice());
        w.write_bytes(self.ram.as_slice());
        w.write_bytes(self.vram.as_slice());
        w.write_bytes(self.palette_ram.as_slice());
        w.write_bytes(self.prg_regs.as_slice());
        w.write_bytes(self.chr_regs.as_slice());
        w.write_u8(self.ram_permission);
        w.write_bytes(self.nt_pages.as_slice());
        save_mirroring(w, self.mirroring);
        save_controllers(w, &self.controllers);
        assert(w.buf@ =~= old(w).buf@ + self.state_bytes());
    }

    /// Restores a state written by `save_state`. Nothing changes unless the
    /// whole state is there and holds values this cartridge can take.
    #[verifier::spinoff_prover]
    pub fn load_state(&mut self, r: &mut SavestateReader) -> (res: Result<(), StateError>)
        requires
            old(self).wf(),
            old(r).wf(),
        ensures
            final(r).wf(),
            final(r).data@ == old(r).data@,
            res == old(self).load_outcome(old(r).data@, old(r).pos as int),
            res is Err ==> *final(self) == *old(self) && final(r).pos == old(r).pos,
            res is Ok ==> final(self).wf() && final(self).loaded_from(old(r).data@, old(r).pos as int)
                && final(self).keeps_unsaved(&*old(self)) && final(self).same_layout(&*old(self))
                && final(r).pos == old(r).pos + old(self).state_len(),
    {
        let ghost d = r.data@;
        let ghost p = r.pos as int;
        let start = r.pos;
        if r.remaining_len() < CPU_RAM_SIZE + RAM_SIZE + VRAM_SIZE + PALETTE_SIZE + 2 * CONTROLLER_STATE_LEN + 15 {
            return Err(StateError::UnexpectedEof);
        }
        let cpu_ram = r.take_bytes(CPU_RAM_SIZE);
        let ram = r.take_bytes(RAM_SIZE);
        let vram = r.take_bytes(VRAM_SIZE);
        let palette_ram = r.take_bytes(PALETTE_SIZE);
        let prg_regs_bytes = r.take_bytes(3);
        let mut prg_regs = self.prg_regs;
        copy_into_array(&mut prg_regs, &prg_regs_bytes);
        let chr_regs_bytes = r.take_bytes(6);
        let mut chr_regs = self.chr_regs;
        copy_into_array(&mut chr_regs, &chr_regs_bytes);
        let ram_permission = r.take_u8();
        let nt_pages_bytes = r.take_bytes(4);
        let mut nt_pages = self.nt_pages;
        copy_into_array(&mut nt_pages, &nt_pages_bytes);
        let mirroring_code = r.take_u8();
        let controllers = take_controllers(r);
        let mirroring = match mirroring_from_code(mirroring_code) {
            Some(m) => m,
            None => {
                r.rewind(start);
                return Err(StateError::InvalidValue);
            },
        };
        self.cpu_ram = cpu_ram;
        self.ram = ram;
        self.vram = vram;
        self.palette_ram = palette_ram;
        self.prg_regs = prg_regs;
        self.chr_regs = chr_regs;
        self.ram_permission = ram_permission;
        self.nt_pages = nt_pages;
        self.mirroring = mirroring;
        self.controllers = controllers;
        Ok(())
    }

    /// Saving a state and loading it into a cartridge of the same shape
    /// succeeds and restores every saved field.
    #[verifier::spinoff_prover]
    pub proof fn lemma_state_roundtrip(o: Self, m: Self, n: Self, d: Seq<u8>, p: int)
        requires
            o.wf(),
            m.wf(),
            m.fits(),
            o.same_layout(&m),
            n.same_layout(&m),
            stored_at(d, p, m.state_bytes()),
        ensures
            o.load_outcome(d, p) == Ok::<(), StateError>(()),
            n.loaded_from(d, p) ==> n.same_state(&m),
    {
        let s0 = m.cpu_ram@;
        let s1 = s0 + m.ram@;
        let s2 = s1 + m.vram@;
        let s3 = s2 + m.palette_ram@;
        let s4 = s3 + m.prg_regs@;
        let s5 = s4 + m.chr_regs@;
        let s6 = s5 + enc_u8(m.ram_permission);
        let s7 = s6 + m.nt_pages@;
        let s8 = s7 + enc_u8(mirror_code(m.mirroring));
        let s9 = s8 + controllers_bytes(m.controllers);
        lemma_stored_split(d, p, s8, controllers_bytes(m.controllers));
        lemma_stored_split(d, p, s7, enc_u8(mirror_code(m.mirroring)));
        lemma_stored_split(d, p, s6, m.nt_pages@);
        lemma_stored_split(d, p, s5, enc_u8(m.ram_permission));
        lemma_stored_split(d, p, s4, m.chr_regs@);
        lemma_stored_split(d, p, s3, m.prg_regs@);
        lemma_stored_split(d, p, s2, m.palette_ram@);
        lemma_stored_split(d, p, s1, m.vram@);
        lemma_stored_split(d, p, s0, m.ram@);
        lemma_stored_u8(d, (p + CPU_RAM_SIZE + RAM_SIZE + VRAM_SIZE + PALETTE_SIZE + 9), m.ram_permission);
        lemma_stored_u8(d, (p + CPU_RAM_SIZE + RAM_SIZE + VRAM_SIZE + PALETTE_SIZE + 14), mirror_code(m.mirroring));
        lemma_mirror_code_roundtrip(m.mirroring);
        lemma_stored_controllers(d, (p + CPU_RAM_SIZE + RAM_SIZE + VRAM_SIZE + PALETTE_SIZE + 15), m.controllers);
        if n.loaded_from(d, p) {
            assert(n.controllers@ =~= m.controllers@);
        }
    }
}

} // verus!
