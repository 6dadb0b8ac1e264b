use s4::render::fade::{calc_fade_percentage, circular_lookup, lerp_fade, scroll_fade_sequence, FadeAnimator, FrameTimer};
use s4::data::map::TileType;
use s4::render::font::{FontRenderer, FontWidthTable};
use s4::render::glyph::{game_mode_name, tile_char};
use s4::render::palette::{Color, Palette};
use s4::render::tile::{render_tiles, TileRenderer, TILE_BUFFER_SIZE};
use s4::render::viewport::{map_window, ClipRect, Viewport};

#[test]
fn fade_ticks_follow_the_fixed_point_step() {
    let mut anim = FadeAnimator::new();
    let mut acc: u32 = 0;
    for _ in 0..5 {
        acc = acc.wrapping_mul(0x0003_43FD).wrapping_add(0x0026_9EC3);
        assert_eq!(anim.tick(), ((acc >> 16) & 0x7FFF) as u16);
    }
    anim.reset();
    assert_eq!(anim.tick(), 0x26);
    anim.set_velocity(0);
    assert_eq!(anim.tick(), 0x26);
}

#[test]
fn lerp_fade_divides_toward_zero() {
    assert_eq!(lerp_fade(176, 100, 0), 0);
    assert_eq!(lerp_fade(50, 100, 0), 72);
    assert_eq!(lerp_fade(2, 0, -1), 0);
    assert_eq!(lerp_fade(0, -5, 5), -5);
}

#[test]
fn fade_percentage_cases() {
    assert_eq!(calc_fade_percentage(75, 50, 100), 50);
    assert_eq!(calc_fade_percentage(25, 50, 100), 50);
    assert_eq!(calc_fade_percentage(60, 50, 50), 100);
    assert_eq!(calc_fade_percentage(500, 50, 100), 100);
    assert_eq!(calc_fade_percentage(65586, 50, 150), 0);
}

#[test]
fn circular_lookup_wraps() {
    let table = [10i16, 20, 30];
    assert_eq!(circular_lookup(0, &table), 10);
    assert_eq!(circular_lookup(1, &table), 20);
    assert_eq!(circular_lookup(2, &table), 30);
    assert_eq!(circular_lookup(0, &[]), 0);
}

#[test]
fn scroll_fade_sequence_values() {
    let params = [10000i32, 20000, 5, -5];
    let table = [100i16, -200];
    let (primary, secondary) = scroll_fade_sequence(&params, &table);
    assert_eq!(primary, [105, -195, 105, -195]);
    assert_eq!(secondary, [195, 195, 195, 195]);
}

#[test]
fn frame_timer_paces_frames() {
    let mut t = FrameTimer::new(60);
    assert!(!t.is_ready(15));
    assert!(t.is_ready(16));
    t.mark(100);
    assert!(!t.is_ready(115));
    assert!(t.is_ready(116));
}

#[test]
fn expand_16px_carries_bits() {
    let src = [0b1000_0001u8, 0b1000_0000];
    let mut dst = [0xEEu8; 6];
    FontRenderer::expand_bitmap_16px(&src, &mut dst);
    assert_eq!(dst, [0b1000_0001, 0b0000_0011, 0b1000_0000, 0b0000_0000, 0xEE, 0xEE]);
}

#[test]
fn expand_8px_stops_at_shorter_buffer() {
    let src = [0xFFu8, 0x01, 0x02];
    let mut dst = [0u8; 5];
    FontRenderer::expand_bitmap_8px(&src, &mut dst);
    assert_eq!(dst, [0x7F, 0xFE, 0x01, 0x02, 0]);
}

#[test]
fn cursor_and_widths() {
    let mut f = FontRenderer::new();
    assert_eq!((f.char_width, f.char_height, f.cursor_visible), (8, 16, false));
    f.toggle_cursor_blink();
    assert!(f.cursor_visible);
    f.set_cursor_pos(3, 4);
    assert_eq!((f.cursor_x, f.cursor_y), (3, 4));

    let mut table = FontWidthTable::new();
    table.set_width(b'i', 4);
    assert_eq!(table.string_width(b"hi"), 12);
    assert_eq!(table.string_width(b""), 0);
    assert_eq!(table.string_width(b"h") + table.string_width(b"i"), table.string_width(b"hi"));
}

#[test]
fn color_packing_round_trips() {
    let c = Color::from_u16(0xF80);
    assert_eq!(c, Color::new(255, 136, 0));
    assert_eq!(c.to_u16(), 0xF80);
    assert_eq!(Color::from_u16(0xFABC).to_u16(), 0x0ABC);
    assert_eq!(Color::new(100, 100, 100).to_u16(), 0x0555);
}

#[test]
fn palettes() {
    let p = Palette::vga16_default();
    assert_eq!(p.get_color(15), Color::new(255, 255, 255));
    assert_eq!(p.get_color(6), Color::new(170, 85, 0));
    assert_eq!(p.get_color(16), Color::new(0, 0, 0));

    let mut q = Palette::new();
    q.load_from_u16(255, &[0x0FFF, 0x0F00]);
    assert_eq!(q.get_color(255), Color::new(255, 255, 255));
    assert_eq!(q.get_color(0), Color::new(0, 0, 0));
    q.set_color(3, Color::new(1, 2, 3));
    assert_eq!(q.get_color(3), Color::new(1, 2, 3));
}

#[test]
fn clip_rect_overlaps() {
    let a = ClipRect::new(0, 0, 10, 10);
    let b = ClipRect::new(5, 5, 10, 10);
    let c = ClipRect::new(20, 20, 5, 5);
    assert!(a.intersects(&b));
    let i = a.intersection(&b).unwrap();
    assert_eq!((i.x, i.y, i.w, i.h), (5, 5, 5, 5));
    let j = b.intersection(&a).unwrap();
    assert_eq!((j.x, j.y, j.w, j.h), (5, 5, 5, 5));
    assert!(!a.intersects(&c));
    assert!(a.intersection(&c).is_none());
}

#[test]
fn viewport_operations() {
    let mut vp = Viewport::new_bounded(-5, 0, 10, 2);
    assert_eq!((vp.width, vp.height, vp.tile_w, vp.tile_h), (10, 2, 15, 16));
    assert!(vp.is_visible(-5, 0));
    assert!(!vp.is_visible(5, 0));
    assert_eq!(vp.byte_aligned_stride(), 16);
    vp.build_buffer();
    assert_eq!(vp.content_buffer.as_ref().unwrap().len(), 32);
    vp.buffer_mut().unwrap()[3] = 9;
    assert_eq!(vp.content_buffer.as_ref().unwrap()[3], 9);
    vp.set_scroll(7, -3);
    let (sx, sy) = vp.transform(10, 10);
    assert_eq!(vp.inverse_transform(sx, sy), (10, 10));
    vp.clear();
    assert!(vp.content_buffer.as_ref().unwrap().iter().all(|&b| b == 0));
    assert_eq!(vp.get_scroll(), (0, 0));
    vp.dirty = false;
    vp.set_scroll(0, 0);
    assert!(!vp.dirty);
    vp.set_bounds(1, 2, 3, 4);
    assert_eq!((vp.clip.x, vp.clip.y, vp.clip.w, vp.clip.h, vp.width, vp.height), (1, 2, 3, 4, 3, 4));
}

#[test]
fn map_window_of_default_viewport() {
    let mut vp = Viewport::new();
    assert_eq!(map_window(&vp, 20, 11), (0, 0, 20, 11));
    vp.set_scroll(64, 40);
    assert_eq!(map_window(&vp, 20, 11), (2, 1, 20, 11));
    vp.set_scroll(-64, -40);
    assert_eq!(map_window(&vp, 20, 11), (0, 0, 20, 11));
}

#[test]
fn tile_buffer_operations() {
    let mut r = TileRenderer::new();
    r.copy_bitmap_128(&[1, 2, 3]);
    assert_eq!(&r.tile_buffer[..4], &[1, 2, 3, 0]);
    r.clear_buffer();
    assert!(r.tile_buffer.iter().all(|&b| b == 0));
    let base = [7u8; TILE_BUFFER_SIZE];
    let vp = Viewport::new();
    render_tiles(&mut r, &vp, &base, 0x1FF);
    assert_eq!(r.tile_buffer, base);
}

#[test]
fn byte_operations() {
    let mut d = [0b1100_1100u8, 0xFF, 0x00];
    TileRenderer::merge_planes_direct(&mut d, &[0b0011_0000, 0x0F]);
    assert_eq!(d, [0b1111_1100, 0xFF, 0x00]);
    TileRenderer::apply_and_mask(&mut d, 0x0F);
    assert_eq!(d, [0x0C, 0x0F, 0x00]);
    TileRenderer::or_planes_all(&mut d, 0x80);
    assert_eq!(d, [0x8C, 0x8F, 0x80]);
    let mut f = [0u8; 10];
    TileRenderer::fill_planes_solid(&mut f, &[1, 2, 3, 4]);
    assert_eq!(f, [1, 2, 1, 2, 3, 4, 3, 4, 0, 0]);
}

#[test]
fn sprite_shifted_draw() {
    let mut d = [0x01u8; 10];
    TileRenderer::draw_sprite_subpixel(&mut d, &[0xFF, 0x81], 8, 0, 3);
    assert_eq!(d, [0x01, 0x1F, 0xE1, 0x01, 0x01, 0x10, 0x21, 0x01, 0x01, 0x01]);
    let mut e = [0u8; 2];
    TileRenderer::draw_sprite_subpixel(&mut e, &[5, 6, 7], 0, 0, 0);
    assert_eq!(e, [5, 6]);
}

#[test]
fn plane_merge_clears_covered_pixels() {
    let mut dst = [0xFFu8; 0x40];
    let mut src = [0u8; 0x40];
    src[0x10] = 0x0F;
    src[0x21] = 0xF0;
    TileRenderer::merge_planes_simple(&mut dst, &src);
    assert_eq!(dst[0], 0xF0);
    assert_eq!(dst[0x10], 0xFF);
    assert_eq!(dst[1], 0x0F);
    assert_eq!(dst[0x21], 0xFF);
    assert_eq!(dst[2], 0xFF);
    let mut short = [0xAAu8; 1];
    TileRenderer::merge_planes_simple(&mut short, &src);
    assert_eq!(short, [0xAA]);
}

#[test]
fn cell_glyphs_and_mode_names() {
    assert_eq!(tile_char(TileType::City, false), "城");
    assert_eq!(tile_char(TileType::Mountain, false), "山");
    assert_eq!(tile_char(TileType::Road, false), "─");
    assert_eq!(tile_char(TileType::City, true), "◆");
    assert_eq!(game_mode_name(0), "战略");
    assert_eq!(game_mode_name(3), "战斗A");
    assert_eq!(game_mode_name(4), "战斗B");
    assert_eq!(game_mode_name(1), "未知");
}
