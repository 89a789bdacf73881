//! The PPU side of the classic boards: an 8KB CHR window (RAM or ROM), the
//! console's 2KB nametable RAM and palette RAM.

use vstd::prelude::*;
use crate::bus::{NametableMirror, nt_offset, palette_slot, mirror_nametable_addr, palette_index, VRAM_SIZE, PALETTE_SIZE};
use crate::savestate::{SavestateWriter, enc_u8};

verus! {

/// Size of the CHR window the PPU sees at $0000-$1FFF.
pub const CHR_WINDOW: usize = 0x2000;

pub struct PpuBus {
    pub chr: Vec<u8>,
    pub chr_is_ram: bool,
    pub vram: Vec<u8>,
    pub palette: Vec<u8>,
    pub mirroring: NametableMirror,
}

/// The contents of a `PpuBus`.
pub struct PpuView {
    pub chr: Seq<u8>,
    pub chr_is_ram: bool,
    pub vram: Seq<u8>,
    pub palette: Seq<u8>,
    pub mirroring: NametableMirror,
}

impl View for PpuBus {
    type V = PpuView;

    open spec fn view(&self) -> PpuView {
        PpuView {
            chr: self.chr@,
            chr_is_ram: self.chr_is_ram,
            vram: self.vram@,
            palette: self.palette@,
            mirroring: self.mirroring,
        }
    }
}

impl PpuView {
    /// What a PPU read of `addr` returns.
    pub open spec fn read(self, addr: u16) -> u8 {
        let a = ((addr as int) % 0x4000) as u16;
        if a < 0x2000 {
            if (a as int) < self.chr.len() {
                self.chr[a as int]
            } else {
                0
            }
        } else if a < 0x3F00 {
            self.vram[nt_offset(a, self.mirroring)]
        } else {
            self.palette[palette_slot(a)]
        }
    }

    /// The bus after a PPU write of `value` to `addr`; writes to CHR ROM are dropped.
    pub open spec fn write(self, addr: u16, value: u8) -> PpuView {
        let a = ((addr as int) % 0x4000) as u16;
        if a < 0x2000 {
            if self.chr_is_ram && (a as int) < self.chr.len() {
                PpuView { chr: self.chr.update(a as int, value), ..self }
            } else {
                self
            }
        } else if a < 0x3F00 {
            PpuView { vram: self.vram.update(nt_offset(a, self.mirroring), value), ..self }
        } else {
            PpuView { palette: self.palette.update(palette_slot(a), value), ..self }
        }
    }
}

/// Where a PPU address lands.
pub open spec fn ppu_region_is_chr(addr: u16) -> bool {
    (addr as int) % 0x4000 < 0x2000
}

pub open spec fn ppu_region_is_nametable(addr: u16) -> bool {
    0x2000 <= (addr as int) % 0x4000 < 0x3F00
}

pub open spec fn mirror_code(m: NametableMirror) -> u8 {
    match m {
        NametableMirror::Horizontal => 0,
        NametableMirror::Vertical => 1,
        NametableMirror::Lower => 2,
        NametableMirror::Higher => 3,
    }
}

pub open spec fn mirror_from_code(c: u8) -> Option<NametableMirror> {
    if c == 0 {
        Some(NametableMirror::Horizontal)
    } else if c == 1 {
        Some(NametableMirror::Vertical)
    } else if c == 2 {
        Some(NametableMirror::Lower)
    } else if c == 3 {
        Some(NametableMirror::Higher)
    } else {
        None
    }
}

/// The mirroring mode that a stored code names, if any.
pub fn mirroring_from_code(c: u8) -> (m: Option<NametableMirror>)
    ensures
        m == mirror_from_code(c),
{
    if c == 0 {
        Some(NametableMirror::Horizontal)
    } else if c == 1 {
        Some(NametableMirror::Vertical)
    } else if c == 2 {
        Some(NametableMirror::Lower)
    } else if c == 3 {
        Some(NametableMirror::Higher)
    } else {
        None
    }
}

/// Whether `v` holds exactly the bytes of `bank`.
pub fn bank_matches<const N: usize>(v: &Vec<u8>, bank: &[u8; N]) -> (r: bool)
    ensures
        r == (v@ == bank@),
{
    if v.len() != N {
        return false;
    }
    let mut i: usize = 0;
    while i < N
        invariant
            v@.len() == N,
            bank@.len() == N,
            i <= N,
            forall|j: int| 0 <= j < i ==> v@[j] == bank@[j],
        decreases N - i,
    {
        if v[i] != bank[i] {
            return false;
        }
        i = i + 1;
    }
    assert(v@ =~= bank@);
    true
}

/// Stores a mirroring mode as one byte.
pub fn save_mirroring(w: &mut SavestateWriter, m: NametableMirror)
    ensures
        final(w).buf@ == old(w).buf@ + enc_u8(mirror_code(m)),
{
    let c: u8 = match m {
        NametableMirror::Horizontal => 0,
        NametableMirror::Vertical => 1,
        NametableMirror::Lower => 2,
        NametableMirror::Higher => 3,
    };
    w.write_u8(c);
}

pub proof fn lemma_mirror_code_roundtrip(m: NametableMirror)
    ensures
        mirror_from_code(mirror_code(m)) == Some(m),
{
}

/// A zero-filled vector.
pub fn zeroed(n: usize) -> (v: Vec<u8>)
    ensures
        v@ == Seq::new(n as nat, |i: int| 0u8),
{
    filled(n, 0)
}

/// A vector holding `n` copies of `b`.
pub fn filled(n: usize, b: u8) -> (v: Vec<u8>)
    ensures
        v@ == Seq::new(n as nat, |i: int| b),
{
    let mut v: Vec<u8> = Vec::new();
    let mut i: usize = 0;
    while i < n
        invariant
            i <= n,
            v@ == Seq::new(i as nat, |k: int| b),
        decreases n - i,
    {
        v.push(b);
        i = i + 1;
    }
    v
}

/// Copies a fixed-size bank into a vector.
pub fn bank_to_vec<const N: usize>(bank: &[u8; N]) -> (v: Vec<u8>)
    ensures
        v@ == bank@,
{
    let mut v: Vec<u8> = Vec::new();
    let mut i: usize = 0;
    while i < N
        invariant
            i <= N,
            bank@.len() == N,
            v@ == bank@.subrange(0, i as int),
        decreases N - i,
    {
        v.push(bank[i]);
        i = i + 1;
        assert(bank@.subrange(0, i as int) == bank@.subrange(0, i - 1 as int).push(bank@[i - 1]));
    }
    assert(bank@.subrange(0, N as int) == bank@);
    v
}

/// Two 4KB halves taken from 8KB banks, placed one after the other.
pub fn join_halves(a: &[u8; 8192], a_off: usize, b: &[u8; 8192], b_off: usize) -> (v: Vec<u8>)
    requires
        a_off == 0 || a_off == 4096,
        b_off == 0 || b_off == 4096,
    ensures
        v@ == a@.subrange(a_off as int, a_off + 4096) + b@.subrange(b_off as int, b_off + 4096),
        v@.len() == 8192,
{
    let mut v: Vec<u8> = Vec::new();
    let mut i: usize = 0;
    while i < 4096
        invariant
            i <= 4096,
            a_off == 0 || a_off == 4096,
            a@.len() == 8192,
            v@ == a@.subrange(a_off as int, a_off + i),
        decreases 4096 - i,
    {
        v.push(a[a_off + i]);
        i = i + 1;
        assert(a@.subrange(a_off as int, a_off + i) == a@.subrange(a_off as int, a_off + i - 1).push(a@[a_off + i - 1]));
    }
    let mut j: usize = 0;
    while j < 4096
        invariant
            j <= 4096,
            b_off == 0 || b_off == 4096,
            b@.len() == 8192,
            v@ == a@.subrange(a_off as int, a_off + 4096) + b@.subrange(b_off as int, b_off + j),
        decreases 4096 - j,
    {
        v.push(b[b_off + j]);
        j = j + 1;
        assert(b@.subrange(b_off as int, b_off + j) == b@.subrange(b_off as int, b_off + j - 1).push(b@[b_off + j - 1]));
    }
    v
}

impl PpuBus {
    pub open spec fn wf(&self) -> bool {
        &&& self.vram@.len() == VRAM_SIZE
        &&& self.palette@.len() == PALETTE_SIZE
    }

    /// A bus with `size` bytes of zeroed CHR RAM.
    pub fn new_ram(size: usize, mirroring: NametableMirror) -> (p: PpuBus)
        ensures
            p.wf(),
            p.chr@ == Seq::new(size as nat, |i: int| 0u8),
            p.chr_is_ram,
            p.vram@ == Seq::new(VRAM_SIZE as nat, |i: int| 0u8),
            p.palette@ == Seq::new(PALETTE_SIZE as nat, |i: int| 0u8),
            p.mirroring == mirroring,
    {
        PpuBus {
            chr: zeroed(size),
            chr_is_ram: true,
            vram: zeroed(VRAM_SIZE),
            palette: zeroed(PALETTE_SIZE),
            mirroring,
        }
    }

    /// A bus whose CHR window shows a ROM bank.
    pub fn new_rom(bank: &[u8; 8192], mirroring: NametableMirror) -> (p: PpuBus)
        ensures
            p.wf(),
            p.chr@ == bank@,
            !p.chr_is_ram,
            p.vram@ == Seq::new(VRAM_SIZE as nat, |i: int| 0u8),
            p.palette@ == Seq::new(PALETTE_SIZE as nat, |i: int| 0u8),
            p.mirroring == mirroring,
    {
        PpuBus {
            chr: bank_to_vec(bank),
            chr_is_ram: false,
            vram: zeroed(VRAM_SIZE),
            palette: zeroed(PALETTE_SIZE),
            mirroring,
        }
    }

    pub fn read(&self, addr: u16) -> (r: u8)
        requires
            self.wf(),
        ensures
            r == self@.read(addr),
    {
        let a = addr % 0x4000;
        if a < 0x2000 {
            if (a as usize) < self.chr.len() {
                self.chr[a as usize]
            } else {
                0
            }
        } else if a < 0x3F00 {
            self.vram[mirror_nametable_addr(a, self.mirroring) as usize]
        } else {
            self.palette[palette_index(a)]
        }
    }

    pub fn write(&mut self, addr: u16, value: u8)
        requires
            old(self).wf(),
        ensures
            final(self)@ == old(self)@.write(addr, value),
            final(self).wf(),
    {
        let a = addr % 0x4000;
        if a < 0x2000 {
            if self.chr_is_ram && (a as usize) < self.chr.len() {
                self.chr.set(a as usize, value);
            }
        } else if a < 0x3F00 {
            let i = mirror_nametable_addr(a, self.mirroring) as usize;
            self.vram.set(i, value);
        } else {
            let i = palette_index(a);
            self.palette.set(i, value);
        }
    }

    /// Shows `banks[index]` in the CHR window.
    pub fn switch_chr_bank(&mut self, banks: &Vec<[u8; 8192]>, index: usize)
        requires
            old(self).wf(),
            index < banks@.len(),
        ensures
            final(self).wf(),
            final(self).chr@ == banks@[index as int]@,
            final(self).chr_is_ram == old(self).chr_is_ram,
            final(self).vram == old(self).vram,
            final(self).palette == old(self).palette,
            final(self).mirroring == old(self).mirroring,
    {
        self.chr = bank_to_vec(&banks[index]);
    }

    /// Shows the given bytes in the CHR window.
    pub fn set_chr(&mut self, data: Vec<u8>)
        requires
            old(self).wf(),
        ensures
            final(self).wf(),
            final(self).chr == data,
            final(self).chr_is_ram == old(self).chr_is_ram,
            final(self).vram == old(self).vram,
            final(self).palette == old(self).palette,
            final(self).mirroring == old(self).mirroring,
    {
        self.chr = data;
    }
}

} // verus!
