use krankulator_core::debug::{render_all_nametables, render_nametable, render_pattern_table, render_sprites, PPU_SPACE, OAM_SIZE};

fn rgb_table() -> Vec<[u8; 3]> {
    (0..64u8).map(|i| [i, i.wrapping_add(100), i.wrapping_add(200)]).collect()
}

#[test]
fn test_render_pattern_table_pixels() {
    let mut mem = vec![0u8; PPU_SPACE];
    // Tile 0, row 0: low plane 0x80 (leftmost pixel bit 0), high plane 0x80 too.
    mem[0x0000] = 0x80;
    mem[0x0008] = 0x80;
    let mut pal = [0u8; 32];
    pal[0] = 0x0F;
    pal[3] = 0x21;
    let rgb = rgb_table();
    let img = render_pattern_table(0x0000, &pal, &mem, None, &rgb);
    assert_eq!(img.width, 128);
    assert_eq!(img.height, 128);
    assert_eq!(img.pixels.len(), 128 * 128 * 3);
    // Pixel (0,0) has colour index 3 -> palette[3] = 0x21.
    assert_eq!(&img.pixels[0..3], &[0x21, 0x21 + 100, 0x21 + 200]);
    // Pixel (1,0) has colour index 0 -> palette[0] = 0x0F.
    assert_eq!(&img.pixels[3..6], &[0x0F, 0x0F + 100, 0x0F + 200]);
}

#[test]
fn test_render_pattern_table_prefers_chr_snapshot() {
    let mem = vec![0u8; PPU_SPACE];
    let mut chr = vec![0u8; 0x2000];
    chr[0x0000] = 0x80;
    let mut pal = [0u8; 32];
    pal[1] = 0x05;
    let rgb = rgb_table();
    let img = render_pattern_table(0x0000, &pal, &mem, Some(&chr), &rgb);
    assert_eq!(img.pixels[0], 0x05);
}

#[test]
fn test_render_nametable_attribute_palette() {
    let mut mem = vec![0u8; PPU_SPACE];
    // Nametable 0 tile (0,0) is tile 1; tile 1 row 0 is all colour 1.
    mem[0x2000] = 1;
    mem[0x0010] = 0xFF;
    // Attribute byte: top-left quadrant palette 2.
    mem[0x23C0] = 0x02;
    mem[0x3F00] = 0x0F;
    mem[0x3F09] = 0x16;
    let rgb = rgb_table();
    let img = render_nametable(0x000, 0x0000, &mem, None, &rgb);
    assert_eq!(img.width, 256);
    assert_eq!(img.height, 240);
    assert_eq!(img.pixels.len(), 256 * 240 * 3);
    assert_eq!(img.pixels[0], 0x16);
    // Row 1 of tile 1 is empty: backdrop colour.
    assert_eq!(img.pixels[256 * 3], 0x0F);
}

#[test]
fn test_render_all_nametables_count() {
    let mem = vec![0u8; PPU_SPACE];
    let rgb = rgb_table();
    let imgs = render_all_nametables(0x1000, &mem, None, &rgb);
    assert_eq!(imgs.len(), 4);
    for img in &imgs {
        assert_eq!(img.pixels.len(), 256 * 240 * 3);
    }
}

#[test]
fn test_render_sprites_skips_offscreen() {
    let mut oam = [0xFFu8; OAM_SIZE];
    oam[4 * 5] = 0x10;
    oam[4 * 5 + 1] = 0x02;
    oam[4 * 5 + 2] = 0x01;
    oam[4 * 5 + 3] = 0x20;
    let mut mem = vec![0u8; PPU_SPACE];
    mem[0x0020] = 0x80;
    mem[0x3F00] = 0x0F;
    mem[0x3F15] = 0x2A;
    let rgb = rgb_table();
    let sprites = render_sprites(&oam, 8, 0x0000, &mem, &rgb);
    assert_eq!(sprites.len(), 1);
    let s = &sprites[0];
    assert_eq!((s.index, s.x, s.y, s.tile, s.attr, s.width, s.height), (5, 0x20, 0x10, 2, 1, 8, 8));
    assert_eq!(s.pixels.len(), 8 * 8 * 3);
    assert_eq!(s.pixels[0], 0x2A);
    assert_eq!(s.pixels[3], 0x0F);
}

#[test]
fn test_render_sprites_tall() {
    let mut oam = [0xFFu8; OAM_SIZE];
    oam[0] = 0x00;
    oam[1] = 0x03; // odd tile: pattern table $1000, tiles 2 and 3
    oam[2] = 0x00;
    oam[3] = 0x00;
    let mut mem = vec![0u8; PPU_SPACE];
    mem[0x1000 + 3 * 16] = 0x80; // first row of the lower tile
    mem[0x3F00] = 0x0F;
    mem[0x3F11] = 0x30;
    let rgb = rgb_table();
    let sprites = render_sprites(&oam, 16, 0x0000, &mem, &rgb);
    assert_eq!(sprites.len(), 1);
    assert_eq!(sprites[0].pixels.len(), 8 * 16 * 3);
    assert_eq!(sprites[0].pixels[8 * 8 * 3], 0x30);
    assert_eq!(sprites[0].pixels[0], 0x0F);
}
