use gramslator::app_state::{read_state, update_deepgram_status, update_translation, update_wifi_status, AppState, ServiceStatus};
use gramslator::rendering::bitmap::{FontSize, FontStyle, MonoFontId};
use gramslator::rendering::display_task::{plan_frame, DisplayMemory};
use gramslator::rendering::font::{blend, glyph_colors, sorted_unique_chars};
use gramslator::rendering::framebuffer::Framebuffer;
use gramslator::rendering::geometry::{bounding_box_union, Pixel, Point, Rectangle, Rgb666, Size};
use gramslator::rendering::glyph_cache::{GlyphCache, DEFAULT_MAX_CACHE_SIZE};
use gramslator::rendering::layout::{
    centered_x, primary_status_layout, section_rect, separator_rect, visible_lines, StatusLayout,
    SEPARATOR_Y, TRANSCRIPT_SECTION_H, TRANSCRIPT_Y, TRANSLATION_SECTION_H, TRANSLATION_Y,
};
use gramslator::rendering::status::{primary_status_text, translate_status_text};

fn rect(x: i32, y: i32, w: u32, h: u32) -> Rectangle {
    Rectangle::new(Point::new(x, y), Size::new(w, h))
}

fn px(fb: &Framebuffer, x: usize, y: usize) -> (u8, u8, u8) {
    let w = fb.size().width as usize;
    let b = fb.pixel_bytes();
    let i = (y * w + x) * 3;
    (b[i], b[i + 1], b[i + 2])
}

#[test]
fn new_framebuffer_is_black_and_clean() {
    let fb = Framebuffer::new(4, 3);
    assert_eq!(fb.pixel_bytes().len(), 36);
    assert!(fb.pixel_bytes().iter().all(|&b| b == 0));
    assert!(!fb.is_dirty());
    assert_eq!(fb.dirty_rect(), None);
    assert_eq!(fb.size(), Size::new(4, 3));
}

#[test]
fn fill_solid_paints_and_marks_dirty() {
    let mut fb = Framebuffer::new(4, 3);
    let red = Rgb666::new(10, 20, 30);
    fb.fill_solid(rect(1, 1, 2, 1), red);
    assert_eq!(px(&fb, 1, 1), (10, 20, 30));
    assert_eq!(px(&fb, 2, 1), (10, 20, 30));
    assert_eq!(px(&fb, 0, 1), (0, 0, 0));
    assert_eq!(px(&fb, 3, 1), (0, 0, 0));
    assert_eq!(fb.dirty_rect(), Some(rect(1, 1, 2, 1)));
    let region = fb.flush().unwrap();
    assert_eq!(region.area, rect(1, 1, 2, 1));
    assert_eq!(region.pixels, vec![red, red]);
    assert!(!fb.is_dirty());
    assert!(fb.flush().is_none());
}

#[test]
fn fill_solid_is_clipped_to_screen() {
    let mut fb = Framebuffer::new(4, 3);
    let c = Rgb666::new(1, 2, 3);
    fb.fill_solid(rect(-2, -1, 4, 3), c);
    assert_eq!(fb.dirty_rect(), Some(rect(0, 0, 2, 2)));
    assert_eq!(px(&fb, 0, 0), (1, 2, 3));
    assert_eq!(px(&fb, 1, 1), (1, 2, 3));
    assert_eq!(px(&fb, 2, 0), (0, 0, 0));
    assert_eq!(px(&fb, 0, 2), (0, 0, 0));
}

#[test]
fn fill_solid_outside_screen_changes_nothing() {
    let mut fb = Framebuffer::new(4, 3);
    fb.fill_solid(rect(10, 10, 5, 5), Rgb666::new(1, 1, 1));
    assert!(!fb.is_dirty());
    assert!(fb.pixel_bytes().iter().all(|&b| b == 0));
}

#[test]
fn clip_restricts_drawing() {
    let mut fb = Framebuffer::new(4, 3);
    fb.set_clip(Some(rect(0, 0, 1, 3)));
    fb.fill_solid(rect(0, 0, 4, 3), Rgb666::new(5, 5, 5));
    assert_eq!(fb.dirty_rect(), Some(rect(0, 0, 1, 3)));
    assert_eq!(px(&fb, 0, 2), (5, 5, 5));
    assert_eq!(px(&fb, 1, 0), (0, 0, 0));
    fb.set_clip(None);
    fb.fill_solid(rect(3, 2, 1, 1), Rgb666::new(6, 6, 6));
    assert_eq!(px(&fb, 3, 2), (6, 6, 6));
    assert_eq!(fb.dirty_rect(), Some(rect(0, 0, 4, 3)));
}

#[test]
fn fill_contiguous_paints_row_major() {
    let mut fb = Framebuffer::new(4, 3);
    let cs = [Rgb666::new(1, 0, 0), Rgb666::new(2, 0, 0), Rgb666::new(3, 0, 0), Rgb666::new(4, 0, 0)];
    fb.fill_contiguous(rect(1, 0, 2, 2), &cs);
    assert_eq!(px(&fb, 1, 0), (1, 0, 0));
    assert_eq!(px(&fb, 2, 0), (2, 0, 0));
    assert_eq!(px(&fb, 1, 1), (3, 0, 0));
    assert_eq!(px(&fb, 2, 1), (4, 0, 0));
    assert_eq!(px(&fb, 3, 0), (0, 0, 0));
    assert_eq!(fb.dirty_rect(), Some(rect(1, 0, 2, 2)));
}

#[test]
fn draw_iter_skips_offscreen_pixels() {
    let mut fb = Framebuffer::new(4, 3);
    let c = Rgb666::new(9, 9, 9);
    fb.draw_iter(&[Pixel(Point::new(0, 0), c), Pixel(Point::new(10, 10), c), Pixel(Point::new(-1, 1), c)]);
    assert_eq!(px(&fb, 0, 0), (9, 9, 9));
    assert_eq!(fb.dirty_rect(), Some(rect(0, 0, 1, 1)));
}

#[test]
fn dirty_region_grows_to_cover_all_changes() {
    let mut fb = Framebuffer::new(4, 3);
    fb.fill_solid(rect(0, 0, 1, 1), Rgb666::new(1, 1, 1));
    fb.fill_solid(rect(3, 2, 1, 1), Rgb666::new(1, 1, 1));
    assert_eq!(fb.dirty_rect(), Some(rect(0, 0, 4, 3)));
    assert_eq!(fb.take_dirty(), Some(rect(0, 0, 4, 3)));
    assert!(!fb.is_dirty());
}

#[test]
fn bounding_box_of_two_rectangles() {
    assert_eq!(bounding_box_union(rect(1, 1, 2, 2), rect(5, 0, 1, 1)), rect(1, 0, 5, 3));
}

#[test]
fn colour_channels_keep_six_bits() {
    assert_eq!(Rgb666::new(69, 1, 255), Rgb666 { r: 5, g: 1, b: 63 });
    assert_eq!(Rgb666::black(), Rgb666 { r: 0, g: 0, b: 0 });
}

#[test]
fn alpha_blending() {
    let fg = Rgb666::new(63, 63, 63);
    let bg = Rgb666::new(0, 10, 63);
    assert_eq!(blend(fg, bg, 255), fg);
    assert_eq!(blend(fg, bg, 0), bg);
    assert_eq!(blend(fg, bg, 128), Rgb666 { r: 31, g: 36, b: 63 });
    assert_eq!(glyph_colors(&[0, 255], fg, bg), vec![bg, fg]);
}

#[test]
fn status_texts() {
    assert_eq!(primary_status_text(ServiceStatus::Idle, ServiceStatus::Idle), "Connecting to WiFi...");
    assert_eq!(primary_status_text(ServiceStatus::Error, ServiceStatus::Connected), "WiFi disconnected");
    assert_eq!(primary_status_text(ServiceStatus::Connected, ServiceStatus::Connecting), "Connecting to Deepgram...");
    assert_eq!(primary_status_text(ServiceStatus::Connected, ServiceStatus::Error), "Deepgram disconnected");
    assert_eq!(primary_status_text(ServiceStatus::Connected, ServiceStatus::Connected), "");
    assert_eq!(translate_status_text(ServiceStatus::Connecting), "TR...");
    assert_eq!(translate_status_text(ServiceStatus::Error), "TR!");
    assert_eq!(translate_status_text(ServiceStatus::Connected), "");
    assert_eq!(translate_status_text(ServiceStatus::Idle), "");
}

#[test]
fn bitmap_fonts() {
    assert_eq!(FontSize::Medium.mono_font(FontStyle::Italic), MonoFontId::Font7x13Italic);
    assert_eq!(FontSize::Large.mono_font(FontStyle::Italic), MonoFontId::Font9x18);
    assert_eq!(FontSize::Large.mono_font(FontStyle::Bold), MonoFontId::Font9x18Bold);
    assert_eq!(FontSize::Small.mono_font(FontStyle::Bold), MonoFontId::Font6x10);
    assert_eq!(FontSize::ExtraLarge.mono_font(FontStyle::default()), MonoFontId::Font10x20);
    assert_eq!(FontSize::Small.line_height(), 12);
    assert_eq!(FontSize::Medium.line_height(), 16);
    assert_eq!(FontSize::Large.line_height(), 20);
    assert_eq!(FontSize::ExtraLarge.line_height(), 22);
}

#[test]
fn layout_geometry() {
    assert_eq!(TRANSLATION_SECTION_H, SEPARATOR_Y - TRANSLATION_Y);
    assert_eq!(TRANSCRIPT_SECTION_H, 320 - TRANSCRIPT_Y);
    assert_eq!(section_rect(267, 53), rect(0, 267, 480, 53));
    assert_eq!(separator_rect(), rect(8, 264, 464, 1));
    assert_eq!(centered_x(480, 100), 190);
    assert_eq!(centered_x(480, 481), 0);
    assert_eq!(centered_x(100, 103), -1);
    assert_eq!(centered_x(i32::MAX, i32::MIN), i32::MAX);
    assert_eq!(centered_x(i32::MIN, i32::MAX), -i32::MAX);
}

#[test]
fn status_layout() {
    assert_eq!(primary_status_layout(ServiceStatus::Connecting, false, 260, 50, 20), StatusLayout::TwoLines(96, 152));
    assert_eq!(primary_status_layout(ServiceStatus::Connected, false, 260, 50, 20), StatusLayout::OneLine(109));
    assert_eq!(primary_status_layout(ServiceStatus::Error, true, 260, 50, 20), StatusLayout::Hidden);
    assert_eq!(primary_status_layout(ServiceStatus::Connected, false, 10, 51, 20), StatusLayout::OneLine(-16));
}

#[test]
fn scrolled_section_lines() {
    assert_eq!(visible_lines(10, -30, 22, 4, 53), (1, 4));
    assert_eq!(visible_lines(2, 4, 22, 4, 53), (0, 2));
    assert_eq!(visible_lines(0, 4, 22, 4, 53), (0, 0));
    assert_eq!(visible_lines(3, -100, 22, 4, 53), (3, 3));
    assert_eq!(visible_lines(3, i32::MAX - 10, 100, i32::MAX - 50, i32::MAX), (0, 3));
    assert_eq!(visible_lines(4, i32::MIN, i32::MAX, i32::MIN + 10, 5), (0, 1));
}

#[test]
fn frame_plan_follows_state() {
    let mut mem = DisplayMemory::new();
    let mut s = AppState::new();
    let plan = plan_frame(&mut mem, read_state(&Some(AppState::new())));
    assert_eq!(plan.primary_status, Some("Connecting to WiFi..."));
    assert!(!plan.repaint_translation);
    assert!(!plan.translation_visible);
    assert!(plan.translation_text.is_none() && plan.transcript_text.is_none());
    assert_eq!(plan.translate_status, None);

    update_wifi_status(&mut s, ServiceStatus::Connected);
    update_deepgram_status(&mut s, ServiceStatus::Connected);
    update_translation(&mut s, "hola");
    let state = Some(s);
    let plan = plan_frame(&mut mem, read_state(&state));
    assert_eq!(plan.translation_text.as_deref(), Some("hola"));
    assert_eq!(plan.primary_status, Some(""));
    assert!(plan.repaint_translation);
    assert!(plan.translation_visible);

    let plan = plan_frame(&mut mem, read_state(&state));
    assert!(plan.translation_text.is_none());
    assert_eq!(plan.primary_status, None);
    assert!(!plan.repaint_translation);
    assert!(plan.translation_visible);
}

#[test]
fn glyph_cache_evicts_least_recently_used() {
    let mut cache: GlyphCache<u32> = GlyphCache::new();
    assert_eq!(DEFAULT_MAX_CACHE_SIZE, 256);
    cache.set_max_cache_size(2);
    cache.ensure_cached(1, || 10);
    cache.ensure_cached(2, || 20);
    cache.ensure_cached(1, || panic!("cached glyph rasterised again"));
    cache.ensure_cached(3, || 30);
    assert_eq!(cache.len(), 2);
    assert_eq!(cache.get(1), Some(&10));
    assert_eq!(cache.get(2), None);
    assert_eq!(cache.get(3), Some(&30));
    assert_eq!(cache.access_count(), 4);
}

#[test]
fn glyph_cache_shrinks_lazily() {
    let mut cache: GlyphCache<u32> = GlyphCache::new();
    for k in 0..4u64 {
        cache.ensure_cached(k, || k as u32);
    }
    cache.ensure_cached(1, || panic!("cached glyph rasterised again"));
    cache.set_max_cache_size(2);
    assert_eq!(cache.len(), 4);
    cache.ensure_cached(2, || panic!("cached glyph rasterised again"));
    assert_eq!(cache.len(), 4);
    cache.ensure_cached(9, || 9);
    assert_eq!(cache.len(), 2);
    assert_eq!(cache.get(0), None);
    assert_eq!(cache.get(1), None);
    assert_eq!(cache.get(3), None);
    assert_eq!(cache.get(2), Some(&2));
    assert_eq!(cache.get(9), Some(&9));
}

#[test]
fn glyph_cache_with_zero_limit_keeps_only_the_new_glyph() {
    let mut cache: GlyphCache<u32> = GlyphCache::new();
    cache.ensure_cached(1, || 1);
    cache.ensure_cached(2, || 2);
    cache.set_max_cache_size(0);
    cache.ensure_cached(3, || 3);
    assert_eq!(cache.len(), 1);
    assert_eq!(cache.get(3), Some(&3));
}

#[test]
fn characters_sorted_and_unique() {
    assert_eq!(sorted_unique_chars(vec!['c', 'a', 'b', 'a', '\u{3042}', 'c']), vec!['a', 'b', 'c', '\u{3042}']);
    assert_eq!(sorted_unique_chars(vec![]), Vec::<char>::new());
    assert_eq!(sorted_unique_chars(vec!['z']), vec!['z']);
}

/// Write a flushed region into a mirror of the display, row by row.
fn upload(mirror: &mut [Rgb666], width: usize, region: &gramslator::rendering::framebuffer::FlushRegion) {
    let a = region.area;
    for row in 0..a.size.height as usize {
        for col in 0..a.size.width as usize {
            let x = a.top_left.x as usize + col;
            let y = a.top_left.y as usize + row;
            mirror[y * width + x] = region.pixels[row * a.size.width as usize + col];
        }
    }
}

fn mirror_matches(fb: &Framebuffer, mirror: &[Rgb666]) -> bool {
    let w = fb.size().width as usize;
    let h = fb.size().height as usize;
    (0..h).all(|y| (0..w).all(|x| {
        let c = mirror[y * w + x];
        px(fb, x, y) == (c.r, c.g, c.b)
    }))
}

#[test]
fn flushing_keeps_a_display_mirror_up_to_date() {
    let mut fb = Framebuffer::new(6, 5);
    let mut mirror = vec![Rgb666::new(0, 0, 0); 30];
    fb.fill_solid(rect(1, 1, 3, 2), Rgb666::new(9, 8, 7));
    fb.draw_iter(&[Pixel(Point::new(5, 4), Rgb666::new(1, 2, 3)), Pixel(Point::new(-1, 0), Rgb666::new(4, 4, 4))]);
    fb.set_clip(Some(rect(0, 3, 6, 2)));
    fb.fill_contiguous(rect(0, 2, 2, 2), &[Rgb666::new(5, 0, 0), Rgb666::new(0, 5, 0), Rgb666::new(0, 0, 5), Rgb666::new(5, 5, 5)]);
    fb.set_clip(None);
    assert!(!mirror_matches(&fb, &mirror));
    let region = fb.flush().unwrap();
    upload(&mut mirror, 6, &region);
    assert!(mirror_matches(&fb, &mirror));
    fb.fill_solid(rect(4, 0, 2, 1), Rgb666::new(6, 6, 6));
    let region = fb.flush().unwrap();
    assert_eq!(region.area, rect(4, 0, 2, 1));
    upload(&mut mirror, 6, &region);
    assert!(mirror_matches(&fb, &mirror));
}

#[test]
fn mark_dirty_takes_the_bounding_box_on_screen() {
    let mut fb = Framebuffer::new(10, 8);
    fb.mark_dirty(rect(-3, -3, 2, 2));
    assert_eq!(fb.dirty_rect(), None);
    fb.mark_dirty(rect(1, 1, 2, 2));
    assert_eq!(fb.dirty_rect(), Some(rect(1, 1, 2, 2)));
    fb.mark_dirty(rect(8, 6, 5, 5));
    assert_eq!(fb.dirty_rect(), Some(rect(1, 1, 9, 7)));
    fb.set_clip(Some(rect(0, 0, 3, 3)));
    fb.mark_dirty(rect(5, 5, 1, 1));
    assert_eq!(fb.dirty_rect(), Some(rect(1, 1, 9, 7)));
    assert!(fb.pixel_bytes().iter().all(|&b| b == 0));
}
