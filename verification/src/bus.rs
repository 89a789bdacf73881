//! Address decoding shared by every cartridge: CPU RAM mirroring, nametable
//! mirroring and palette RAM mirroring.

use vstd::prelude::*;

verus! {

/// Size of the internal CPU work RAM.
pub const CPU_RAM_SIZE: usize = 0x800;
/// Size of the console's nametable RAM (two 1KB screens).
pub const VRAM_SIZE: usize = 0x800;
/// Number of palette RAM entries.
pub const PALETTE_SIZE: usize = 32;
/// First address of palette RAM on the PPU bus.
pub const PALETTE_START: u16 = 0x3F00;
/// The PPU address bus is 14 bits wide.
pub const MAX_VRAM_ADDR: u16 = 0x4000;
/// Location of the reset vector.
pub const RESET_TARGET_ADDR: u16 = 0xFFFC;
/// Size of the lower half of the CPU address space kept by the classic boards.
pub const LOW_SPACE_SIZE: usize = 0x8000;
/// PPU dots that A12 must stay low before a rise counts as a scanline edge.
pub const A12_FILTER_DOTS: u64 = 10;

/// How the four logical nametables map onto the console's nametable RAM.
#[derive(Clone, Copy, Debug, PartialEq, Eq, Structural)]
pub enum NametableMirror {
    Horizontal,
    Vertical,
    /// Single screen, lower 1KB page.
    Lower,
    /// Single screen, upper 1KB page.
    Higher,
}

/// Offset into the 2KB nametable RAM that a PPU address in $2000-$3EFF selects.
pub open spec fn nt_offset(addr: u16, m: NametableMirror) -> int {
    let a = addr as int;
    match m {
        NametableMirror::Horizontal => ((a % 0x1000) / 0x800) * 0x400 + a % 0x400,
        NametableMirror::Vertical => a % 0x800,
        NametableMirror::Lower => a % 0x400,
        NametableMirror::Higher => 0x400 + a % 0x400,
    }
}

/// Horizontal mirroring shows $2000/$2400 as one screen and $2800/$2C00 as
/// the other; vertical mirroring pairs $2000 with $2800 and $2400 with $2C00;
/// the single-screen modes show the lower or the upper screen everywhere.
pub proof fn lemma_nametable_mirroring(addr: u16)
    requires
        0x2000 <= addr < 0x2400,
    ensures
        nt_offset(addr, NametableMirror::Horizontal) == nt_offset((addr + 0x400) as u16, NametableMirror::Horizontal),
        nt_offset((addr + 0x800) as u16, NametableMirror::Horizontal) == nt_offset((addr + 0xC00) as u16, NametableMirror::Horizontal),
        nt_offset(addr, NametableMirror::Horizontal) != nt_offset((addr + 0x800) as u16, NametableMirror::Horizontal),
        nt_offset(addr, NametableMirror::Vertical) == nt_offset((addr + 0x800) as u16, NametableMirror::Vertical),
        nt_offset((addr + 0x400) as u16, NametableMirror::Vertical) == nt_offset((addr + 0xC00) as u16, NametableMirror::Vertical),
        nt_offset(addr, NametableMirror::Vertical) != nt_offset((addr + 0x400) as u16, NametableMirror::Vertical),
        forall|k: int| 0 <= k < 4 ==> #[trigger] nt_offset((addr + k * 0x400) as u16, NametableMirror::Lower) == addr - 0x2000,
        forall|k: int| 0 <= k < 4 ==> #[trigger] nt_offset((addr + k * 0x400) as u16, NametableMirror::Higher) == addr - 0x2000 + 0x400,
{
    assert forall|k: int| 0 <= k < 4 implies #[trigger] nt_offset((addr + k * 0x400) as u16, NametableMirror::Lower) == addr - 0x2000 by {
        assert(((addr + k * 0x400) as u16) as int == addr + k * 0x400);
    }
    assert forall|k: int| 0 <= k < 4 implies #[trigger] nt_offset((addr + k * 0x400) as u16, NametableMirror::Higher) == addr - 0x2000 + 0x400 by {
        assert(((addr + k * 0x400) as u16) as int == addr + k * 0x400);
    }
}

/// iNES flags 6 bit 0 selects vertical mirroring, otherwise horizontal.
pub open spec fn spec_mirroring_from_flags(flags: u8) -> NametableMirror {
    if flags % 2 == 1 {
        NametableMirror::Vertical
    } else {
        NametableMirror::Horizontal
    }
}

pub fn mirroring_from_flags(flags: u8) -> (m: NametableMirror)
    ensures
        m == spec_mirroring_from_flags(flags),
{
    if flags % 2 == 1 {
        NametableMirror::Vertical
    } else {
        NametableMirror::Horizontal
    }
}

/// Maps a nametable address onto the 2KB nametable RAM.
pub fn mirror_nametable_addr(addr: u16, m: NametableMirror) -> (r: u16)
    ensures
        r as int == nt_offset(addr, m),
        r < 0x800,
{
    match m {
        NametableMirror::Horizontal => ((addr % 0x1000) / 0x800) * 0x400 + addr % 0x400,
        NametableMirror::Vertical => addr % 0x800,
        NametableMirror::Lower => addr % 0x400,
        NametableMirror::Higher => 0x400 + addr % 0x400,
    }
}

/// Palette RAM index for a PPU address in $3F00-$3FFF; entries $10/$14/$18/$1C
/// alias $00/$04/$08/$0C.
pub open spec fn palette_slot(addr: u16) -> int {
    let i = (addr as int) % 32;
    if i >= 16 && i % 4 == 0 {
        i - 16
    } else {
        i
    }
}

pub fn palette_index(addr: u16) -> (r: usize)
    ensures
        r as int == palette_slot(addr),
        r < PALETTE_SIZE,
{
    let i = (addr % 32) as usize;
    if i >= 16 && i % 4 == 0 {
        i - 16
    } else {
        i
    }
}

/// CPU address after the console's own mirroring: the 2KB work RAM repeats up
/// to $1FFF and the eight PPU registers repeat up to $3FFF.
pub open spec fn spec_mirror_addr(addr: u16) -> u16 {
    if addr < 0x2000 {
        (addr % 0x800) as u16
    } else if addr < 0x4000 {
        (0x2000 + addr % 8) as u16
    } else {
        addr
    }
}

pub fn mirror_addr(addr: u16) -> (r: u16)
    ensures
        r == spec_mirror_addr(addr),
        (addr < 0x8000) == (r < 0x8000),
        r >= 0x8000 ==> r == addr,
{
    if addr < 0x2000 {
        addr % 0x800
    } else if addr < 0x4000 {
        0x2000 + addr % 8
    } else {
        addr
    }
}

/// The 4KB page an address falls in, written as its high nibble times 16.
pub open spec fn spec_addr_to_page(addr: u16) -> u8 {
    ((addr as int / 0x1000) * 0x10) as u8
}

pub fn addr_to_page(addr: u16) -> (r: u8)
    ensures
        r == spec_addr_to_page(addr),
        r as int == (addr as int / 0x1000) * 0x10,
{
    ((addr / 0x1000) * 0x10) as u8
}

/// Pages of the classic boards that hold plain RAM: work RAM at $0000 and
/// cartridge RAM at $6000.
pub open spec fn is_ram_page(page: u8) -> bool {
    page == 0x00 || page == 0x10 || page == 0x60
}

/// Little-endian 16-bit value from two bytes.
pub open spec fn word(lo: u8, hi: u8) -> u16 {
    (hi as int * 256 + lo as int) as u16
}

pub fn make_word(lo: u8, hi: u8) -> (r: u16)
    ensures
        r == word(lo, hi),
        r as int == hi as int * 256 + lo as int,
{
    (hi as u16) * 256 + lo as u16
}

/// The lower 32KB of a classic board after a CPU write of `value` to the
/// (already mirrored) address `a`: only the RAM pages take the byte.
pub open spec fn low_after_write(ram: Seq<u8>, a: u16, value: u8) -> Seq<u8> {
    if is_ram_page(spec_addr_to_page(a)) {
        ram.update(a as int, value)
    } else {
        ram
    }
}

/// Stores `value` at the mirrored address `a` when it falls in a RAM page.
pub fn low_write(ram: &mut Vec<u8>, a: u16, value: u8)
    requires
        old(ram)@.len() == LOW_SPACE_SIZE,
        a < 0x8000,
    ensures
        final(ram)@ == low_after_write(old(ram)@, a, value),
{
    let page = addr_to_page(a);
    if page == 0x00 || page == 0x10 || page == 0x60 {
        ram.set(a as usize, value);
    }
}

} // verus!
