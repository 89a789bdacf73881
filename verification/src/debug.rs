//! Debugger views: the sprites in OAM, the nametables and the pattern tables
//! drawn as RGB images from a snapshot of the PPU address space.

use vstd::prelude::*;

verus! {

/// CPU registers as the debugger shows them.
pub struct CpuSnapshot {
    pub pc: u16,
    pub a: u8,
    pub x: u8,
    pub y: u8,
    pub sp: u8,
    pub status: u8,
    pub cycle: u64,
}

/// PPU registers and beam position as the debugger shows them.
pub struct PpuSnapshot {
    pub ctrl: u8,
    pub mask: u8,
    pub status: u8,
    pub v: u16,
    pub t: u16,
    pub fine_x: u8,
    pub scanline: u16,
    pub dot: u16,
    pub frame: u64,
    pub scroll_x: u16,
    pub scroll_y: u16,
    pub nametable_select: u8,
}

/// One sprite of OAM, drawn as `width` x `height` RGB pixels.
pub struct SpriteInfo {
    pub index: u8,
    pub x: u8,
    pub y: u8,
    pub tile: u8,
    pub attr: u8,
    pub pixels: Vec<u8>,
    pub width: u8,
    pub height: u8,
}

/// An RGB image, three bytes per pixel, rows top to bottom.
pub struct NametableImage {
    pub pixels: Vec<u8>,
    pub width: u32,
    pub height: u32,
}

/// Size of the PPU address space that a snapshot covers.
pub const PPU_SPACE: usize = 0x4000;
/// Size of OAM.
pub const OAM_SIZE: usize = 256;

const NT_PX_W: u32 = 256;
const NT_PX_H: u32 = 240;
const PT_PX: u32 = 128;

/// What the PPU reads at `addr`.
pub open spec fn ppu_byte(mem: Seq<u8>, addr: int) -> u8 {
    mem[addr % 0x4000]
}

pub open spec fn opt_view(chr: Option<&[u8]>) -> Option<Seq<u8>> {
    match chr {
        Some(c) => Some(c@),
        None => None,
    }
}

/// A pattern byte: from the CHR snapshot where it covers `addr`, else from
/// the PPU address space.
pub open spec fn chr_byte(chr: Option<Seq<u8>>, mem: Seq<u8>, addr: int) -> u8 {
    match chr {
        Some(c) => if addr < c.len() {
            c[addr]
        } else {
            ppu_byte(mem, addr)
        },
        None => ppu_byte(mem, addr),
    }
}

/// The 2-bit colour of the pixel whose bit is `bit` in the two planes.
pub open spec fn plane_pixel(lo: u8, hi: u8, bit: u8) -> u8 {
    ((lo >> bit) & 1) | (((hi >> bit) & 1) << 1u8)
}

/// Channel `c` of NES colour `color` in the RGB table.
pub open spec fn rgb_channel(rgb: Seq<[u8; 3]>, color: u8, c: int) -> u8 {
    rgb[color as int % rgb.len() as int]@[c]
}

/// The NES colour of pixel `i` of a pattern table drawn with `pal`.
pub open spec fn pt_color(base: u16, pal: Seq<u8>, mem: Seq<u8>, chr: Option<Seq<u8>>, i: int) -> u8 {
    let py = i / 128;
    let px = i % 128;
    let tile = (py / 8) * 16 + px / 8;
    let addr = base + tile * 16 + py % 8;
    let ci = plane_pixel(chr_byte(chr, mem, addr), chr_byte(chr, mem, addr + 8), (7 - px % 8) as u8);
    if ci == 0 {
        pal[0]
    } else {
        pal[ci as int]
    }
}

/// The NES colour of pixel `i` of the nametable at `nt_base`.
pub open spec fn nt_color(nt_base: u16, bg_base: u16, mem: Seq<u8>, chr: Option<Seq<u8>>, i: int) -> u8 {
    let py = i / 256;
    let px = i % 256;
    let tile_row = py / 8;
    let tile_col = px / 8;
    let nt_addr = (nt_base + tile_row * 32 + tile_col) as u16;
    let tile_id = ppu_byte(mem, 0x2000 + (nt_addr & 0x0FFF));
    let attr_addr = (nt_base + 0x03C0 + (tile_row / 4 * 8 + tile_col / 4)) as u16;
    let attr = ppu_byte(mem, 0x2000 + (attr_addr & 0x0FFF));
    let shift = (((tile_row / 2) % 2 * 2 + (tile_col / 2) % 2) * 2) as u8;
    let palette_id = (attr >> shift) & 3;
    let addr = bg_base + tile_id * 16 + py % 8;
    let ci = plane_pixel(chr_byte(chr, mem, addr), chr_byte(chr, mem, addr + 8), (7 - px % 8) as u8);
    if ci == 0 {
        ppu_byte(mem, 0x3F00)
    } else {
        ppu_byte(mem, 0x3F00 + palette_id * 4 + ci)
    }
}

/// The NES colour of pixel `i` (row-major, 8 wide) of OAM entry `s`.
pub open spec fn sprite_color(oam: Seq<u8>, height: u8, pattern_base: u16, mem: Seq<u8>, s: int, i: int) -> u8 {
    let tile = oam[4 * s + 1];
    let attr = oam[4 * s + 2];
    let row = i / 8;
    let px_col = i % 8;
    let actual_row = if attr & 0x80 != 0 {
        height - 1 - row
    } else {
        row
    };
    let addr = if height == 16 {
        (if tile & 1 != 0 {
            0x1000int
        } else {
            0int
        }) + ((tile & 0xFE) + (if actual_row >= 8 {
            1int
        } else {
            0int
        })) * 16 + actual_row % 8
    } else {
        pattern_base + tile * 16 + actual_row
    };
    let ci = plane_pixel(ppu_byte(mem, addr), ppu_byte(mem, addr + 8), (7 - px_col) as u8);
    if ci == 0 {
        ppu_byte(mem, 0x3F00)
    } else {
        ppu_byte(mem, 0x3F10 + (attr & 3) * 4 + ci)
    }
}

/// The OAM entries among the first `n` that are on screen, in order.
pub open spec fn visible_sprites(oam: Seq<u8>, n: nat) -> Seq<int>
    decreases n,
{
    if n == 0 {
        Seq::empty()
    } else {
        let pre = visible_sprites(oam, (n - 1) as nat);
        if oam[4 * (n - 1)] < 0xF0 {
            pre.push(n - 1)
        } else {
            pre
        }
    }
}

/// `info` draws OAM entry `s`.
pub open spec fn sprite_drawn(info: SpriteInfo, oam: Seq<u8>, height: u8, pattern_base: u16, mem: Seq<u8>, rgb: Seq<[u8; 3]>, s: int) -> bool {
    &&& info.index == s
    &&& info.y == oam[4 * s]
    &&& info.tile == oam[4 * s + 1]
    &&& info.attr == oam[4 * s + 2]
    &&& info.x == oam[4 * s + 3]
    &&& info.width == 8
    &&& info.height == height
    &&& info.pixels@.len() == 8 * height * 3
    &&& forall|k: int| 0 <= k < info.pixels@.len() ==> #[trigger] info.pixels@[k] == rgb_channel(
        rgb,
        sprite_color(oam, height, pattern_base, mem, s, k / 3),
        k % 3,
    )
}

fn read_ppu(mem: &[u8], addr: u16) -> (r: u8)
    requires
        mem@.len() == PPU_SPACE,
    ensures
        r == ppu_byte(mem@, addr as int),
{
    mem[(addr % 0x4000) as usize]
}

fn read_chr(addr: u16, chr_snapshot: Option<&[u8]>, mem: &[u8]) -> (r: u8)
    requires
        mem@.len() == PPU_SPACE,
    ensures
        r == chr_byte(opt_view(chr_snapshot), mem@, addr as int),
{
    if let Some(chr) = chr_snapshot {
        if (addr as usize) < chr.len() {
            return chr[addr as usize];
        }
    }
    read_ppu(mem, addr)
}

fn pixel_of(lo: u8, hi: u8, bit: u8) -> (r: u8)
    requires
        bit < 8,
    ensures
        r == plane_pixel(lo, hi, bit),
        r < 4,
{
    let r = ((lo >> bit) & 1) | (((hi >> bit) & 1) << 1);
    assert(r < 4) by (bit_vector)
        requires
            r == ((lo >> bit) & 1) | (((hi >> bit) & 1) << 1u8),
    ;
    r
}

/// Appends the RGB triple of NES colour `color`.
fn push_rgb(pixels: &mut Vec<u8>, rgb: &[[u8; 3]], color: u8)
    requires
        rgb@.len() > 0,
    ensures
        final(pixels)@ == old(pixels)@ + seq![
            rgb_channel(rgb@, color, 0),
            rgb_channel(rgb@, color, 1),
            rgb_channel(rgb@, color, 2),
        ],
{
    let entry = rgb[(color as usize) % rgb.len()];
    pixels.push(entry[0]);
    pixels.push(entry[1]);
    pixels.push(entry[2]);
}

/// Draws the 16x16 tiles of the pattern table at `base` with the first
/// background palette of `palette_ram`, reading pattern bytes from the CHR
/// snapshot where it covers them.
pub fn render_pattern_table(
    base: u16,
    palette_ram: &[u8; 32],
    mem: &[u8],
    chr_snapshot: Option<&[u8]>,
    rgb: &[[u8; 3]],
) -> (img: NametableImage)
    requires
        base <= 0xF000,
        mem@.len() == PPU_SPACE,
        rgb@.len() > 0,
    ensures
        img.width == 128 && img.height == 128,
        img.pixels@.len() == 128 * 128 * 3,
        forall|k: int| 0 <= k < img.pixels@.len() ==> #[trigger] img.pixels@[k] == rgb_channel(
            rgb@,
            pt_color(base, palette_ram@, mem@, opt_view(chr_snapshot), k / 3),
            k % 3,
        ),
{
    let mut pixels: Vec<u8> = Vec::new();
    let total: usize = (PT_PX * PT_PX) as usize;
    let mut i: usize = 0;
    while i < total
        invariant
            total == 128 * 128,
            base <= 0xF000,
            mem@.len() == PPU_SPACE,
            rgb@.len() > 0,
            i <= total,
            pixels@.len() == 3 * i,
            forall|k: int| 0 <= k < pixels@.len() ==> #[trigger] pixels@[k] == rgb_channel(
                rgb@,
                pt_color(base, palette_ram@, mem@, opt_view(chr_snapshot), k / 3),
                k % 3,
            ),
        decreases total - i,
    {
        let py = i / 128;
        let px = i % 128;
        let tile = (py / 8) * 16 + px / 8;
        let addr = base + (tile * 16 + py % 8) as u16;
        let lo = read_chr(addr, chr_snapshot, mem);
        let hi = read_chr(addr + 8, chr_snapshot, mem);
        let ci = pixel_of(lo, hi, (7 - px % 8) as u8);
        let color = if ci == 0 {
            palette_ram[0]
        } else {
            palette_ram[ci as usize]
        };
        assert(color == pt_color(base, palette_ram@, mem@, opt_view(chr_snapshot), i as int));
        let ghost before = pixels@;
        push_rgb(&mut pixels, rgb, color);
        assert forall|k: int| 0 <= k < pixels@.len() implies #[trigger] pixels@[k] == rgb_channel(
            rgb@,
            pt_color(base, palette_ram@, mem@, opt_view(chr_snapshot), k / 3),
            k % 3,
        ) by {
            if k >= 3 * i {
                assert(k / 3 == i);
            } else {
                assert(pixels@[k] == before[k]);
            }
        }
        i = i + 1;
    }
    NametableImage { pixels, width: PT_PX, height: PT_PX }
}

/// Draws the 32x30 tiles of the nametable at `nt_base` (an offset into
/// $2000-$2FFF) with the background pattern table at `bg_pattern_base`,
/// reading pattern bytes from the CHR snapshot where it covers them.
pub fn render_nametable(
    nt_base: u16,
    bg_pattern_base: u16,
    mem: &[u8],
    chr_snapshot: Option<&[u8]>,
    rgb: &[[u8; 3]],
) -> (img: NametableImage)
    requires
        nt_base <= 0xF000,
        bg_pattern_base <= 0xF000,
        mem@.len() == PPU_SPACE,
        rgb@.len() > 0,
    ensures
        img.width == 256 && img.height == 240,
        img.pixels@.len() == 256 * 240 * 3,
        forall|k: int| 0 <= k < img.pixels@.len() ==> #[trigger] img.pixels@[k] == rgb_channel(
            rgb@,
            nt_color(nt_base, bg_pattern_base, mem@, opt_view(chr_snapshot), k / 3),
            k % 3,
        ),
{
    let mut pixels: Vec<u8> = Vec::new();
    let total: usize = (NT_PX_W * NT_PX_H) as usize;
    let mut i: usize = 0;
    while i < total
        invariant
            total == 256 * 240,
            nt_base <= 0xF000,
            bg_pattern_base <= 0xF000,
            mem@.len() == PPU_SPACE,
            rgb@.len() > 0,
            i <= total,
            pixels@.len() == 3 * i,
            forall|k: int| 0 <= k < pixels@.len() ==> #[trigger] pixels@[k] == rgb_channel(
                rgb@,
                nt_color(nt_base, bg_pattern_base, mem@, opt_view(chr_snapshot), k / 3),
                k % 3,
            ),
        decreases total - i,
    {
        let py = i / 256;
        let px = i % 256;
        let tile_row = py / 8;
        let tile_col = px / 8;
        let nt_addr = nt_base + (tile_row * 32 + tile_col) as u16;
        assert(nt_addr & 0x0FFF <= 0x0FFF) by (bit_vector);
        let tile_id = read_ppu(mem, 0x2000 + (nt_addr & 0x0FFF)) as u16;
        let attr_addr = nt_base + 0x03C0 + (tile_row / 4 * 8 + tile_col / 4) as u16;
        assert(attr_addr & 0x0FFF <= 0x0FFF) by (bit_vector);
        let attr = read_ppu(mem, 0x2000 + (attr_addr & 0x0FFF));
        let shift = (((tile_row / 2) % 2 * 2 + (tile_col / 2) % 2) * 2) as u8;
        let palette_id = (attr >> shift) & 0x03;
        let addr = bg_pattern_base + tile_id * 16 + (py % 8) as u16;
        let lo = read_chr(addr, chr_snapshot, mem);
        let hi = read_chr(addr + 8, chr_snapshot, mem);
        let ci = pixel_of(lo, hi, (7 - px % 8) as u8);
        assert(palette_id <= 3) by (bit_vector)
            requires
                palette_id == (attr >> shift) & 0x03u8,
        ;
        let color = if ci == 0 {
            read_ppu(mem, 0x3F00)
        } else {
            read_ppu(mem, 0x3F00 + (palette_id as u16) * 4 + ci as u16)
        };
        assert(color == nt_color(nt_base, bg_pattern_base, mem@, opt_view(chr_snapshot), i as int));
        let ghost before = pixels@;
        push_rgb(&mut pixels, rgb, color);
        assert forall|k: int| 0 <= k < pixels@.len() implies #[trigger] pixels@[k] == rgb_channel(
            rgb@,
            nt_color(nt_base, bg_pattern_base, mem@, opt_view(chr_snapshot), k / 3),
            k % 3,
        ) by {
            if k >= 3 * i {
                assert(k / 3 == i);
            } else {
                assert(pixels@[k] == before[k]);
            }
        }
        i = i + 1;
    }
    NametableImage { pixels, width: NT_PX_W, height: NT_PX_H }
}

/// The four nametables at $2000, $2400, $2800 and $2C00, in that order.
pub fn render_all_nametables(
    bg_pattern_base: u16,
    mem: &[u8],
    chr_snapshot: Option<&[u8]>,
    rgb: &[[u8; 3]],
) -> (imgs: Vec<NametableImage>)
    requires
        bg_pattern_base <= 0xF000,
        mem@.len() == PPU_SPACE,
        rgb@.len() > 0,
    ensures
        imgs@.len() == 4,
        forall|n: int, k: int|
            0 <= n < 4 && 0 <= k < imgs@[n].pixels@.len() ==> #[trigger] imgs@[n].pixels@[k] == rgb_channel(
                rgb@,
                nt_color((n * 0x400) as u16, bg_pattern_base, mem@, opt_view(chr_snapshot), k / 3),
                k % 3,
            ),
        forall|n: int|
            0 <= n < 4 ==> #[trigger] imgs@[n].pixels@.len() == 256 * 240 * 3 && imgs@[n].width == 256
                && imgs@[n].height == 240,
{
    let a = render_nametable(0x000, bg_pattern_base, mem, chr_snapshot, rgb);
    let b = render_nametable(0x400, bg_pattern_base, mem, chr_snapshot, rgb);
    let c = render_nametable(0x800, bg_pattern_base, mem, chr_snapshot, rgb);
    let d = render_nametable(0xC00, bg_pattern_base, mem, chr_snapshot, rgb);
    let mut imgs: Vec<NametableImage> = Vec::new();
    imgs.push(a);
    imgs.push(b);
    imgs.push(c);
    imgs.push(d);
    assert forall|n: int, k: int|
        0 <= n < 4 && 0 <= k < imgs@[n].pixels@.len() implies #[trigger] imgs@[n].pixels@[k] == rgb_channel(
            rgb@,
            nt_color((n * 0x400) as u16, bg_pattern_base, mem@, opt_view(chr_snapshot), k / 3),
            k % 3,
        ) by {
        if n == 0 {
            assert(imgs@[n] == a);
        } else if n == 1 {
            assert(imgs@[n] == b);
        } else if n == 2 {
            assert(imgs@[n] == c);
        } else {
            assert(imgs@[n] == d);
        }
    }
    imgs
}

/// Draws every OAM entry whose Y is below $F0, in OAM order, as an 8-wide
/// image `sprite_height` rows tall. Tall (8x16) sprites take their pattern
/// table from bit 0 of the tile number, the others from `pattern_base`.
pub fn render_sprites(
    oam: &[u8; OAM_SIZE],
    sprite_height: u8,
    pattern_base: u16,
    mem: &[u8],
    rgb: &[[u8; 3]],
) -> (sprites: Vec<SpriteInfo>)
    requires
        pattern_base <= 0xE000,
        mem@.len() == PPU_SPACE,
        rgb@.len() > 0,
    ensures
        sprites@.len() == visible_sprites(oam@, 64).len(),
        forall|k: int|
            0 <= k < sprites@.len() ==> sprite_drawn(
                #[trigger] sprites@[k],
                oam@,
                sprite_height,
                pattern_base,
                mem@,
                rgb@,
                visible_sprites(oam@, 64)[k],
            ),
{
    let mut sprites: Vec<SpriteInfo> = Vec::new();
    let mut s: usize = 0;
    while s < 64
        invariant
            pattern_base <= 0xE000,
            mem@.len() == PPU_SPACE,
            rgb@.len() > 0,
            oam@.len() == OAM_SIZE,
            s <= 64,
            sprites@.len() == visible_sprites(oam@, s as nat).len(),
            forall|k: int|
                0 <= k < sprites@.len() ==> sprite_drawn(
                    #[trigger] sprites@[k],
                    oam@,
                    sprite_height,
                    pattern_base,
                    mem@,
                    rgb@,
                    visible_sprites(oam@, s as nat)[k],
                ),
        decreases 64 - s,
    {
        let base = s * 4;
        let y = oam[base];
        if y < 0xF0 {
            let info = draw_sprite(oam, s, sprite_height, pattern_base, mem, rgb);
            let ghost before = sprites@;
            sprites.push(info);
            assert forall|k: int| 0 <= k < sprites@.len() implies sprite_drawn(
                #[trigger] sprites@[k],
                oam@,
                sprite_height,
                pattern_base,
                mem@,
                rgb@,
                visible_sprites(oam@, (s + 1) as nat)[k],
            ) by {
                if k < before.len() {
                    assert(sprites@[k] == before[k]);
                }
            }
        }
        s = s + 1;
    }
    sprites
}

fn draw_sprite(oam: &[u8; OAM_SIZE], s: usize, sprite_height: u8, pattern_base: u16, mem: &[u8], rgb: &[[u8; 3]]) -> (info: SpriteInfo)
    requires
        s < 64,
        pattern_base <= 0xE000,
        mem@.len() == PPU_SPACE,
        rgb@.len() > 0,
    ensures
        sprite_drawn(info, oam@, sprite_height, pattern_base, mem@, rgb@, s as int),
{
    let base = s * 4;
    let y = oam[base];
    let tile = oam[base + 1];
    let attr = oam[base + 2];
    let x = oam[base + 3];
    let h = sprite_height as usize;
    let total = 8 * h;
    let mut pixels: Vec<u8> = Vec::new();
    let mut i: usize = 0;
    while i < total
        invariant
            total == 8 * h,
            h == sprite_height,
            pattern_base <= 0xE000,
            mem@.len() == PPU_SPACE,
            rgb@.len() > 0,
            base == 4 * s,
            s < 64,
            tile == oam@[4 * s + 1],
            attr == oam@[4 * s + 2],
            i <= total,
            pixels@.len() == 3 * i,
            forall|k: int| 0 <= k < pixels@.len() ==> #[trigger] pixels@[k] == rgb_channel(
                rgb@,
                sprite_color(oam@, sprite_height, pattern_base, mem@, s as int, k / 3),
                k % 3,
            ),
        decreases total - i,
    {
        let row = i / 8;
        let px_col = i % 8;
        let actual_row = if attr & 0x80 != 0 {
            h - 1 - row
        } else {
            row
        };
        let addr: u16 = if sprite_height == 16 {
            let bank: u16 = if tile & 1 != 0 {
                0x1000
            } else {
                0
            };
            let tile_base = (tile & 0xFE) as u16;
            let tile_offset: u16 = if actual_row >= 8 {
                1
            } else {
                0
            };
            let fine_row = (actual_row % 8) as u16;
            assert(tile & 0xFE <= 0xFE) by (bit_vector);
            bank + (tile_base + tile_offset) * 16 + fine_row
        } else {
            pattern_base + (tile as u16) * 16 + actual_row as u16
        };
        let lo = read_ppu(mem, addr);
        let hi = read_ppu(mem, addr + 8);
        let ci = pixel_of(lo, hi, (7 - px_col) as u8);
        let palette_id = attr & 0x03;
        assert(palette_id <= 3) by (bit_vector)
            requires
                palette_id == attr & 0x03u8,
        ;
        let color = if ci == 0 {
            read_ppu(mem, 0x3F00)
        } else {
            read_ppu(mem, 0x3F10 + (palette_id as u16) * 4 + ci as u16)
        };
        assert(color == sprite_color(oam@, sprite_height, pattern_base, mem@, s as int, i as int));
        let ghost before = pixels@;
        push_rgb(&mut pixels, rgb, color);
        assert forall|k: int| 0 <= k < pixels@.len() implies #[trigger] pixels@[k] == rgb_channel(
            rgb@,
            sprite_color(oam@, sprite_height, pattern_base, mem@, s as int, k / 3),
            k % 3,
        ) by {
            if k >= 3 * i {
                assert(k / 3 == i);
            } else {
                assert(pixels@[k] == before[k]);
            }
        }
        i = i + 1;
    }
    SpriteInfo { index: s as u8, x, y, tile, attr, pixels, width: 8, height: sprite_height }
}

} // verus!
