//! BNROM (mapper 34): 32KB PRG banks selected through a register with bus
//! conflicts, 8KB CHR RAM.

use vstd::prelude::*;
use crate::bus::{NametableMirror, LOW_SPACE_SIZE, VRAM_SIZE, PALETTE_SIZE, RESET_TARGET_ADDR, spec_mirror_addr, mirror_addr, spec_addr_to_page, addr_to_page, spec_mirroring_from_flags, mirroring_from_flags, low_after_write, low_write, word, make_word};
use crate::ppu_bus::{PpuBus, PpuView, zeroed};
use crate::controller::Controller;
use crate::mapper::common::new_controllers;

use crate::savestate::{SavestateWriter, SavestateReader, StateError, enc_u8, enc_bool, stored_at, lemma_add_assoc, lemma_stored_split, lemma_stored_u8, lemma_stored_bool};
use crate::controller::{controllers_bytes, controller_at, save_controllers, take_controllers, lemma_stored_controllers, CONTROLLER_STATE_LEN};
use crate::ppu_bus::{mirror_code, mirror_from_code, mirroring_from_code, save_mirroring, lemma_mirror_code_roundtrip};

verus! {

pub const BNROM_PRG_BANK_SIZE: usize = 32 * 1024;
pub const CHR_SIZE: usize = 8 * 1024;

pub struct BNROMMapper {
    pub ram: Vec<u8>,
    pub prg_banks: Vec<[u8; BNROM_PRG_BANK_SIZE]>,
    pub selected_prg_bank: usize,
    pub ppu: PpuBus,
    pub controllers: [Controller; 2],
}

impl BNROMMapper {
    pub open spec fn wf(&self) -> bool {
        &&& self.ram@.len() == LOW_SPACE_SIZE
        &&& self.prg_banks@.len() > 0
        &&& self.selected_prg_bank < self.prg_banks@.len()
        &&& self.ppu.wf()
    }

    pub open spec fn spec_cpu_read(&self, addr: u16) -> u8 {
        let a = spec_mirror_addr(addr);
        if a < 0x8000 {
            self.ram@[a as int]
        } else {
            self.prg_banks@[self.selected_prg_bank as int][a - 0x8000]
        }
    }

    /// What `new` builds from its arguments.
    pub open spec fn built_by_new(flags: u8, prg_banks: Vec<[u8; BNROM_PRG_BANK_SIZE]>, m: BNROMMapper) -> bool {
        &&& (m.wf())
        &&& (m.prg_banks@ == prg_banks@)
        &&& (m.selected_prg_bank == 0)
        &&& (m.ram@ == Seq::new(LOW_SPACE_SIZE as nat, |i: int| 0u8))
        &&& (m.ppu@ == (PpuView {
                chr: Seq::new(CHR_SIZE as nat, |i: int| 0u8),
                chr_is_ram: true,
                vram: Seq::new(VRAM_SIZE as nat, |i: int| 0u8),
                palette: Seq::new(PALETTE_SIZE as nat, |i: int| 0u8),
                mirroring: spec_mirroring_from_flags(flags),
            }))
    }

    pub fn new(flags: u8, prg_banks: Vec<[u8; BNROM_PRG_BANK_SIZE]>) -> (m: BNROMMapper)
        requires
            prg_banks@.len() > 0,
        ensures
            m.wf(),
            m.prg_banks@ == prg_banks@,
            m.selected_prg_bank == 0,
            m.ram@ == Seq::new(LOW_SPACE_SIZE as nat, |i: int| 0u8),
            m.ppu@ == (PpuView {
                chr: Seq::new(CHR_SIZE as nat, |i: int| 0u8),
                chr_is_ram: true,
                vram: Seq::new(VRAM_SIZE as nat, |i: int| 0u8),
                palette: Seq::new(PALETTE_SIZE as nat, |i: int| 0u8),
                mirroring: spec_mirroring_from_flags(flags),
            }),
            Self::built_by_new(flags, prg_banks, m),
    {
        BNROMMapper {
            ram: zeroed(LOW_SPACE_SIZE),
            prg_banks,
            selected_prg_bank: 0,
            ppu: PpuBus::new_ram(CHR_SIZE, mirroring_from_flags(flags)),
            controllers: new_controllers(),
        }
    }

    pub fn cpu_read(&self, addr: u16) -> (r: u8)
        requires
            self.wf(),
        ensures
            r == self.spec_cpu_read(addr),
    {
        let a = mirror_addr(addr);
        if a < 0x8000 {
            self.ram[a as usize]
        } else {
            self.prg_banks[self.selected_prg_bank][(a - 0x8000) as usize]
        }
    }

    /// Writes to $8000-$FFFF select the 32KB bank; the value is ANDed with the
    /// ROM byte at the written address.
    pub fn cpu_write(&mut self, addr: u16, value: u8)
        requires
            old(self).wf(),
        ensures
            final(self).wf(),
            final(self).prg_banks == old(self).prg_banks,
            final(self).ppu == old(self).ppu,
            final(self).controllers == old(self).controllers,
            spec_mirror_addr(addr) < 0x8000 ==> final(self).ram@ == low_after_write(
                old(self).ram@,
                spec_mirror_addr(addr),
                value,
            ) && final(self).selected_prg_bank == old(self).selected_prg_bank,
            spec_mirror_addr(addr) >= 0x8000 ==> final(self).ram == old(self).ram
                && final(self).selected_prg_bank as int == (value & old(self).spec_cpu_read(addr)) as int
                % old(self).prg_banks@.len() as int,
    {
        let a = mirror_addr(addr);
        if a < 0x8000 {
            low_write(&mut self.ram, a, value);
        } else {
            let effective = value & self.cpu_read(a);
            self.selected_prg_bank = (effective as usize) % self.prg_banks.len();
        }
    }

    pub fn ppu_read(&self, addr: u16) -> (r: u8)
        requires
            self.wf(),
        ensures
            r == self.ppu@.read(addr),
    {
        self.ppu.read(addr)
    }

    pub fn ppu_write(&mut self, addr: u16, value: u8)
        requires
            old(self).wf(),
        ensures
            final(self).wf(),
            final(self).ppu@ == old(self).ppu@.write(addr, value),
            final(self).ram == old(self).ram,
            final(self).prg_banks == old(self).prg_banks,
            final(self).selected_prg_bank == old(self).selected_prg_bank,
    {
        self.ppu.write(addr, value);
    }

    pub fn code_start(&self) -> (r: u16)
        requires
            self.wf(),
        ensures
            r == word(self.spec_cpu_read(RESET_TARGET_ADDR), self.spec_cpu_read(0xFFFD)),
    {
        make_word(self.cpu_read(RESET_TARGET_ADDR), self.cpu_read(RESET_TARGET_ADDR + 1))
    }

    pub fn poll_irq(&self) -> (r: bool)
        ensures
            !r,
    {
        false
    }

    pub fn mapper_id(&self) -> (r: u8)
        ensures
            r == 34,
    {
        34
    }
}

impl BNROMMapper {
    /// The bytes `save_state` appends.
    pub open spec fn state_bytes(&self) -> Seq<u8> {
        self.ram@
            + self.ppu.chr@
            + self.ppu.vram@
            + self.ppu.palette@
            + enc_bool(self.ppu.chr_is_ram)
            + enc_u8(mirror_code(self.ppu.mirroring))
            + enc_u8(self.selected_prg_bank as u8)
            + controllers_bytes(self.controllers)
    }

    /// Length of the saved state.
    pub open spec fn state_len(&self) -> nat {
        (LOW_SPACE_SIZE + self.ppu.chr@.len() + VRAM_SIZE + PALETTE_SIZE + 2 * CONTROLLER_STATE_LEN + 3) as nat
    }

    /// Every register that the state stores in fewer bits than it is held in
    /// fits in those bits.
    pub open spec fn fits(&self) -> bool {
        &&& self.selected_prg_bank < 256
    }

    /// The stored bytes at `p` hold a state that this cartridge can take.
    pub open spec fn state_valid(&self, d: Seq<u8>, p: int) -> bool {
        &&& mirror_from_code(d[(p + LOW_SPACE_SIZE + self.ppu.chr@.len() + VRAM_SIZE + PALETTE_SIZE + 1)]) is Some
        &&& (d[(p + LOW_SPACE_SIZE + self.ppu.chr@.len() + VRAM_SIZE + PALETTE_SIZE + 2)] as usize) < self.prg_banks@.len()
    }

    /// What `load_state` answers for the bytes at `p`.
    pub open spec fn load_outcome(&self, d: Seq<u8>, p: int) -> Result<(), StateError> {
        if p + self.state_len() > d.len() {
            Err(StateError::UnexpectedEof)
        } else if !self.state_valid(d, p) {
            Err(StateError::InvalidValue)
        } else {
            Ok(())
        }
    }

    /// Every saved field holds what the bytes at `p` store.
    pub open spec fn loaded_from(&self, d: Seq<u8>, p: int) -> bool {
        &&& self.ram@ == d.subrange(p, p + LOW_SPACE_SIZE)
        &&& self.ppu.chr@ == d.subrange((p + LOW_SPACE_SIZE), (p + LOW_SPACE_SIZE) + self.ppu.chr@.len())
        &&& self.ppu.vram@ == d.subrange((p + LOW_SPACE_SIZE + self.ppu.chr@.len()), (p + LOW_SPACE_SIZE + self.ppu.chr@.len()) + VRAM_SIZE)
        &&& self.ppu.palette@ == d.subrange((p + LOW_SPACE_SIZE + self.ppu.chr@.len() + VRAM_SIZE), (p + LOW_SPACE_SIZE + self.ppu.chr@.len() + VRAM_SIZE) + PALETTE_SIZE)
        &&& self.ppu.chr_is_ram == (d[(p + LOW_SPACE_SIZE + self.ppu.chr@.len() + VRAM_SIZE + PALETTE_SIZE)] != 0)
        &&& self.ppu.mirroring == mirror_from_code(d[(p + LOW_SPACE_SIZE + self.ppu.chr@.len() + VRAM_SIZE + PALETTE_SIZE + 1)])->0
        &&& self.selected_prg_bank == d[(p + LOW_SPACE_SIZE + self.ppu.chr@.len() + VRAM_SIZE + PALETTE_SIZE + 2)] as usize
        &&& self.controllers@[0] == controller_at(d, (p + LOW_SPACE_SIZE + self.ppu.chr@.len() + VRAM_SIZE + PALETTE_SIZE + 3))
        &&& self.controllers@[1] == controller_at(d, (p + LOW_SPACE_SIZE + self.ppu.chr@.len() + VRAM_SIZE + PALETTE_SIZE + 3) + CONTROLLER_STATE_LEN)
    }

    /// The two agree on every saved field.
    pub open spec fn same_state(&self, other: &Self) -> bool {
        &&& self.ram@ == other.ram@
        &&& self.ppu.chr@ == other.ppu.chr@
        &&& self.ppu.vram@ == other.ppu.vram@
        &&& self.ppu.palette@ == other.ppu.palette@
        &&& self.ppu.chr_is_ram == other.ppu.chr_is_ram
        &&& self.ppu.mirroring == other.ppu.mirroring
        &&& self.selected_prg_bank == other.selected_prg_bank
        &&& self.controllers@ == other.controllers@
    }

    /// The two agree on every field that the state does not store.
    pub open spec fn keeps_unsaved(&self, other: &Self) -> bool {
        &&& self.prg_banks == other.prg_banks
    }

    /// The two come from cartridges of the same shape.
    pub open spec fn same_layout(&self, other: &Self) -> bool {
        &&& self.prg_banks@.len() == other.prg_banks@.len()
        &&& self.ppu.chr@.len() == other.ppu.chr@.len()
    }

    #[verifier::spinoff_prover]
    pub fn save_state(&self, w: &mut SavestateWriter)
        ensures
            final(w).buf@ == old(w).buf@ + self.state_bytes(),
    {
        let ghost b = w.buf@;
        let ghost s0 = self.ram@;
        let ghost s1 = s0 + self.ppu.chr@;
        let ghost s2 = s1 + self.ppu.vram@;
        let ghost s3 = s2 + self.ppu.palette@;
        let ghost s4 = s3 + enc_bool(self.ppu.chr_is_ram);
        let ghost s5 = s4 + enc_u8(mirror_code(self.ppu.mirroring));
        let ghost s6 = s5 + enc_u8(self.selected_prg_bank as u8);
        let ghost s7 = s6 + controllers_bytes(self.controllers);
        w.write_bytes(self.ram.as_slice());
        w.write_bytes(self.ppu.chr.as_slice());
        proof {
            lemma_add_assoc(b, s0, self.ppu.chr@);
        }
        w.write_bytes(self.ppu.vram.as_slice());
        proof {
            lemma_add_assoc(b, s1, self.ppu.vram@);
        }
        w.write_bytes(self.ppu.palette.as_slice());
        proof {
            lemma_add_assoc(b, s2, self.ppu.palette@);
        }
        w.write_bool(self.ppu.chr_is_ram);
        proof {
            lemma_add_assoc(b, s3, enc_bool(self.ppu.chr_is_ram));
        }
        save_mirroring(w, self.ppu.mirroring);
        proof {
            lemma_add_assoc(b, s4, enc_u8(mirror_code(self.ppu.mirroring)));
        }
        w.write_u8(self.selected_prg_bank as u8);
        proof {
            lemma_add_assoc(b, s5, enc_u8(self.selected_prg_bank as u8));
        }
        save_controllers(w, &self.controllers);
        proof {
            lemma_add_assoc(b, s6, controllers_bytes(self.controllers));
        }
    }

    /// Restores a state written by `save_state`. Nothing changes unless the
    /// whole state is there and holds values this cartridge can take.
    #[verifier::spinoff_prover]
    pub fn load_state(&mut self, r: &mut SavestateReader) -> (res: Result<(), StateError>)
        requires
            old(self).wf(),
            old(r).wf(),
        ensures
            final(r).wf(),
            final(r).data@ == old(r).data@,
            res == old(self).load_outcome(old(r).data@, old(r).pos as int),
            res is Err ==> *final(self) == *old(self) && final(r).pos == old(r).pos,
            res is Ok ==> final(self).wf() && final(self).loaded_from(old(r).data@, old(r).pos as int)
                && final(self).keeps_unsaved(&*old(self)) && final(self).same_layout(&*old(self))
                && final(r).pos == old(r).pos + old(self).state_len(),
    {
        let ghost d = r.data@;
        let ghost p = r.pos as int;
        let start = r.pos;
        let rem = r.remaining_len();
        if rem < self.ppu.chr.len() || rem - self.ppu.chr.len() < LOW_SPACE_SIZE + VRAM_SIZE + PALETTE_SIZE + 2 * CONTROLLER_STATE_LEN + 3 {
            return Err(StateError::UnexpectedEof);
        }
        let ram = r.take_bytes(LOW_SPACE_SIZE);
        let ppu_chr = r.take_bytes(self.ppu.chr.len());
        let ppu_vram = r.take_bytes(VRAM_SIZE);
        let ppu_palette = r.take_bytes(PALETTE_SIZE);
        let ppu_chr_is_ram = r.take_bool();
        let ppu_mirroring_code = r.take_u8();
        let selected_prg_bank = r.take_u8() as usize;
        let controllers = take_controllers(r);
        let ppu_mirroring = match mirroring_from_code(ppu_mirroring_code) {
            Some(m) => m,
            None => {
                r.rewind(start);
                return Err(StateError::InvalidValue);
            },
        };
        if (selected_prg_bank >= self.prg_banks.len()) {
            r.rewind(start);
            return Err(StateError::InvalidValue);
        }
        self.ram = ram;
        self.ppu.chr = ppu_chr;
        self.ppu.vram = ppu_vram;
        self.ppu.palette = ppu_palette;
        self.ppu.chr_is_ram = ppu_chr_is_ram;
        self.ppu.mirroring = ppu_mirroring;
        self.selected_prg_bank = selected_prg_bank;
        self.controllers = controllers;
        Ok(())
    }

    /// Saving a state and loading it into a cartridge of the same shape
    /// succeeds and restores every saved field.
    #[verifier::spinoff_prover]
    pub proof fn lemma_state_roundtrip(o: Self, m: Self, n: Self, d: Seq<u8>, p: int)
        requires
            o.wf(),
            m.wf(),
            m.fits(),
            o.same_layout(&m),
            n.same_layout(&m),
            stored_at(d, p, m.state_bytes()),
        ensures
            o.load_outcome(d, p) == Ok::<(), StateError>(()),
            n.loaded_from(d, p) ==> n.same_state(&m),
    {
        let s0 = m.ram@;
        let s1 = s0 + m.ppu.chr@;
        let s2 = s1 + m.ppu.vram@;
        let s3 = s2 + m.ppu.palette@;
        let s4 = s3 + enc_bool(m.ppu.chr_is_ram);
        let s5 = s4 + enc_u8(mirror_code(m.ppu.mirroring));
        let s6 = s5 + enc_u8(m.selected_prg_bank as u8);
        let s7 = s6 + controllers_bytes(m.controllers);
        lemma_stored_split(d, p, s6, controllers_bytes(m.controllers));
        lemma_stored_split(d, p, s5, enc_u8(m.selected_prg_bank as u8));
        lemma_stored_split(d, p, s4, enc_u8(mirror_code(m.ppu.mirroring)));
        lemma_stored_split(d, p, s3, enc_bool(m.ppu.chr_is_ram));
        lemma_stored_split(d, p, s2, m.ppu.palette@);
        lemma_stored_split(d, p, s1, m.ppu.vram@);
        lemma_stored_split(d, p, s0, m.ppu.chr@);
        lemma_stored_bool(d, (p + LOW_SPACE_SIZE + m.ppu.chr@.len() + VRAM_SIZE + PALETTE_SIZE), m.ppu.chr_is_ram);
        lemma_stored_u8(d, (p + LOW_SPACE_SIZE + m.ppu.chr@.len() + VRAM_SIZE + PALETTE_SIZE + 1), mirror_code(m.ppu.mirroring));
        lemma_mirror_code_roundtrip(m.ppu.mirroring);
        lemma_stored_u8(d, (p + LOW_SPACE_SIZE + m.ppu.chr@.len() + VRAM_SIZE + PALETTE_SIZE + 2), m.selected_prg_bank as u8);
        lemma_stored_controllers(d, (p + LOW_SPACE_SIZE + m.ppu.chr@.len() + VRAM_SIZE + PALETTE_SIZE + 3), m.controllers);
        if n.loaded_from(d, p) {
            assert(n.controllers@ =~= m.controllers@);
        }
    }
}

} // verus!
