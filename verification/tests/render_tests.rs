use s4::render::fade::{calc_fade_percentage, fade_scaled, lerp_fade, FadeAnimator};
use s4::render::font::{FontRenderer, FontWidthTable};
use s4::render::tile::{grid_to_screen, TileRenderer};
use s4::render::viewport::{ClipRect, Viewport};

#[test]
fn test_fade_animator_tick() {
    let mut anim = FadeAnimator::new();
    let val1 = anim.tick();
    let val2 = anim.tick();
    assert_ne!(val1, val2);
}

#[test]
fn test_lerp_fade() {
    let result = lerp_fade(50, 0, 100);
    assert_eq!(result, 28);
}

#[test]
fn test_calc_fade_percentage() {
    assert_eq!(calc_fade_percentage(50, 50, 100), 0);
    assert_eq!(calc_fade_percentage(100, 50, 100), 100);
}

#[test]
fn test_fade_scaled() {
    let val = fade_scaled(100);
    assert_eq!(val, (100 * 100 / 0xB0) as u16);
}

#[test]
fn test_expand_bitmap_8px() {
    let src = [0b10101010];
    let mut dst = [0u8; 2];
    FontRenderer::expand_bitmap_8px(&src, &mut dst);
    assert_eq!(dst[0], 0b01010101);
    assert_eq!(dst[1], 0b01010100);
}

#[test]
fn test_sjis_range() {
    assert!(FontRenderer::is_sjis_range(0x81));
    assert!(FontRenderer::is_sjis_range(0x9F));
    assert!(FontRenderer::is_sjis_range(0xE0));
    assert!(!FontRenderer::is_sjis_range(0x7F));
}

#[test]
fn test_font_width_table() {
    let mut table = FontWidthTable::new();
    table.set_width(b'A', 8);
    table.set_width(b'i', 4);
    assert_eq!(table.get_width(b'A'), 8);
    assert_eq!(table.get_width(b'i'), 4);
}

#[test]
fn test_merge_planes_simple() {
    let mut dst = [0u8; 0x40];
    let mut src = [0u8; 0x40];
    src[0] = 0xFF;
    src[1] = 0x00;
    TileRenderer::merge_planes_simple(&mut dst, &src);
    assert_eq!(dst[0], 0xFF);
}

#[test]
fn test_grid_to_screen() {
    let (x, y) = grid_to_screen(0, 0);
    assert_eq!((x, y), (48, 0));
    let (x, y) = grid_to_screen(0, 1);
    assert_eq!((x, y), (64, 32));
}

#[test]
fn test_lookup_convert() {
    let mut data = vec![0, 1, 2, 3];
    let mut table = [0u8; 256];
    table[0] = 10;
    table[1] = 20;
    table[2] = 30;
    table[3] = 40;
    TileRenderer::lookup_convert_tile(&mut data, &table);
    assert_eq!(data, vec![10, 20, 30, 40]);
}

#[test]
fn test_viewport_default() {
    let vp = Viewport::new();
    assert_eq!(vp.width, 640);
    assert_eq!(vp.height, 480);
}

#[test]
fn test_clip_rect_contains() {
    let r = ClipRect::new(10, 20, 100, 50);
    assert!(r.contains(50, 30));
    assert!(!r.contains(5, 30));
    assert!(!r.contains(110, 30));
}

#[test]
fn test_viewport_scroll() {
    let mut vp = Viewport::new();
    vp.dirty = false;
    vp.set_scroll(100, 200);
    assert!(vp.dirty);
    assert_eq!(vp.get_scroll(), (100, 200));
}

#[test]
fn test_viewport_transform() {
    let mut vp = Viewport::new();
    vp.set_scroll(50, 30);
    let (sx, sy) = vp.transform(100, 60);
    assert_eq!((sx, sy), (50, 30));
}
