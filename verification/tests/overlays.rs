use vimouse::glyph::{
    blit_label_argb_u32, blit_label_bgra_u32, blit_label_bgra_u8, glyph_for, glyph_px_lit, glyph_px_outline, premultiply,
};
use vimouse::grid_overlay::{axis_line_centers, axis_line_centers_y, cell_center, line_range, paint_rect};
use vimouse::mark_overlay::{mark_glyphs, MarkGlyph};
use vimouse::mode_overlay::{fill_mode_line, line_physical_size, mode_line_pixel, ModeOverlayPos, MODE_OVERLAY_POSITION};
use vimouse::overlay_surface::OverlaySurfaceImp;
use vimouse::state::Mode;
use vimouse::ui::{hide_previous_grid, mark_slot_visible, mode_line_update, overlay_visibility, queue_startup_actions};

const GLYPH_A: [u8; 8] = [0x0C, 0x1E, 0x33, 0x33, 0x3F, 0x33, 0x33, 0x00];
const LETTER: u32 = 0xE0E0_E0E0;
const OUTLINE: u32 = 0xE000_0000;
const GRID_LINE: u32 = 0xA050_5050;

#[test]
fn font_has_basic_latin_only() {
    assert_eq!(glyph_for('A'), Some(GLYPH_A));
    assert_eq!(glyph_for('0'), Some([0x3E, 0x63, 0x73, 0x7B, 0x6F, 0x67, 0x3E, 0x00]));
    assert_eq!(glyph_for('\u{e9}'), None);
}

#[test]
fn glyph_pixels_follow_bits() {
    // Row 0 of 'A' is 0x0C: columns 2 and 3.
    assert!(!glyph_px_lit(GLYPH_A, 1, 1, 0));
    assert!(glyph_px_lit(GLYPH_A, 1, 2, 0));
    assert!(glyph_px_lit(GLYPH_A, 1, 3, 0));
    assert!(!glyph_px_lit(GLYPH_A, 1, 4, 0));
    // Scaled by 2, pixel (5, 1) is block (2, 0).
    assert!(glyph_px_lit(GLYPH_A, 2, 5, 1));
    assert!(!glyph_px_lit(GLYPH_A, 1, -1, 0));
    assert!(!glyph_px_lit(GLYPH_A, 1, 8, 0));
    assert!(!glyph_px_lit(GLYPH_A, 1, 0, 8));
}

#[test]
fn outline_surrounds_lit_pixels() {
    assert!(glyph_px_outline(GLYPH_A, 1, 1, 0));
    assert!(glyph_px_outline(GLYPH_A, 1, 2, -1));
    assert!(!glyph_px_outline(GLYPH_A, 1, 2, 0));
    assert!(glyph_px_outline(GLYPH_A, 1, 0, 0));
    assert!(!glyph_px_outline(GLYPH_A, 1, -2, 0));
    assert!(glyph_px_outline(GLYPH_A, 1, -1, 2));
    assert!(!glyph_px_outline(GLYPH_A, 1, 9, 7));
    assert!(glyph_px_outline(GLYPH_A, 1, 0, 7));
}

#[test]
fn premultiplied_channels() {
    assert_eq!(premultiply(255, 224), 224);
    assert_eq!(premultiply(0, 224), 0);
    assert_eq!(premultiply(128, 160), 80);
}

#[test]
fn blit_letter_into_packed_buffer() {
    let (w, h) = (20usize, 20usize);
    let mut pixels = vec![7u32; w * h];
    // Box origin: 10 - (4 + 1) = 5; glyph pixel (gx, gy) lands at (6 + gx, 6 + gy).
    blit_label_bgra_u32(&mut pixels, w, h, 10, 10, 'A', 1);
    assert_eq!(pixels[6 * w + 8], LETTER);
    assert_eq!(pixels[6 * w + 9], LETTER);
    assert_eq!(pixels[6 * w + 7], OUTLINE);
    assert_eq!(pixels[6 * w + 6], OUTLINE);
    assert_eq!(pixels[5 * w + 5], 7);
    assert_eq!(pixels[5 * w + 8], OUTLINE);
    assert_eq!(pixels[0], 7);
    assert_eq!(pixels[19 * w + 19], 7);
}

#[test]
fn argb_and_bgra_letters_agree() {
    let (w, h) = (16usize, 16usize);
    let mut a = vec![0u32; w * h];
    let mut b = vec![0u32; w * h];
    blit_label_argb_u32(&mut a, w, h, 8, 8, 'K', 1);
    blit_label_bgra_u32(&mut b, w, h, 8, 8, 'K', 1);
    assert_eq!(a, b);
    assert!(a.iter().any(|&p| p == LETTER));
}

#[test]
fn scale_zero_draws_at_scale_one() {
    let (w, h) = (20usize, 20usize);
    let mut a = vec![0u32; w * h];
    let mut b = vec![0u32; w * h];
    blit_label_bgra_u32(&mut a, w, h, 10, 10, 'A', 0);
    blit_label_bgra_u32(&mut b, w, h, 10, 10, 'A', 1);
    assert_eq!(a, b);
}

#[test]
fn unknown_glyph_leaves_buffer() {
    let mut pixels = vec![3u32; 100];
    blit_label_bgra_u32(&mut pixels, 10, 10, 5, 5, '\u{2603}', 1);
    assert!(pixels.iter().all(|&p| p == 3));
}

#[test]
fn letter_clipped_at_edges() {
    let mut pixels = vec![0u32; 16];
    blit_label_argb_u32(&mut pixels, 4, 4, 0, 0, 'A', 1);
    // Box origin saturates at 0: glyph pixel (2, 0) lands at (3, 1).
    assert_eq!(pixels[1 * 4 + 3], LETTER);
    assert_eq!(pixels[0], 0);
}

#[test]
fn blit_letter_into_byte_buffer() {
    let (w, h) = (20usize, 20usize);
    let mut bytes = vec![9u8; w * h * 4];
    blit_label_bgra_u8(&mut bytes, w, h, 10, 10, 'A', 1);
    let i = (6 * w + 8) * 4;
    assert_eq!(&bytes[i..i + 4], &[224, 224, 224, 224]);
    let o = (6 * w + 7) * 4;
    assert_eq!(&bytes[o..o + 4], &[0, 0, 0, 224]);
    assert_eq!(&bytes[0..4], &[9, 9, 9, 9]);
}

#[test]
fn line_centers_of_grid() {
    assert_eq!(axis_line_centers(100, 5), vec![0, 20, 40, 60, 80, 99]);
    assert_eq!(axis_line_centers(30, 3), vec![0, 10, 20, 29]);
    assert_eq!(axis_line_centers_y(30, 3), vec![1, 10, 20, 29]);
    assert_eq!(axis_line_centers(0, 3), vec![0, 0, 0, 0]);
    assert_eq!(axis_line_centers(10, 0), vec![0, 9]);
}

#[test]
fn line_ranges_stay_inside() {
    assert_eq!(line_range(5, 10), (5, 6));
    assert_eq!(line_range(9, 10), (9, 10));
    assert_eq!(line_range(12, 10), (9, 10));
    assert_eq!(line_range(0, 0), (0, 0));
}

#[test]
fn cell_centers() {
    assert_eq!(cell_center(0, 0, 500, 300), (50, 50));
    assert_eq!(cell_center(4, 2, 500, 300), (450, 250));
    assert_eq!(cell_center(2, 1, 1920, 1080), (960, 540));
}

#[test]
fn paint_rect_paints_only_inside() {
    let mut pixels = vec![0u32; 12];
    paint_rect(&mut pixels, 4, 3, 1, 3, 1, 2, 5);
    assert_eq!(pixels, vec![0, 0, 0, 0, 0, 5, 5, 0, 0, 0, 0, 0]);
}

#[test]
fn fill_grid_lines_argb() {
    let (w, h) = (10usize, 6usize);
    let mut pixels = vec![1u32; w * h];
    vimouse::grid_overlay::argb::fill_grid(&mut pixels, w, h, false, 1);
    // Vertical lines at 0, 2, 4, 6, 8, 9; horizontal lines at 0, 2, 4, 5.
    for y in 0..h {
        for x in 0..w {
            let on = [0, 2, 4, 6, 8, 9].contains(&x) || [0, 2, 4, 5].contains(&y);
            assert_eq!(pixels[y * w + x], if on { GRID_LINE } else { 0 }, "pixel ({x}, {y})");
        }
    }
}

#[test]
fn fill_grid_lines_bgra_keeps_background() {
    let (w, h) = (10usize, 6usize);
    let mut pixels = vec![1u32; w * h];
    vimouse::grid_overlay::bgra::fill_grid(&mut pixels, w, h, false, 1);
    assert_eq!(pixels[1 * w + 1], 1);
    assert_eq!(pixels[1 * w + 2], GRID_LINE);
}

#[test]
fn fill_grid_lines_bytes_insets_top_line() {
    let (w, h) = (10usize, 6usize);
    let mut bytes = vec![1u8; w * h * 4];
    vimouse::grid_overlay::bgra_bytes::fill_grid(&mut bytes, w, h, false, 1);
    // Top line on row 1, not row 0.
    let at = |x: usize, y: usize| (y * w + x) * 4;
    assert_eq!(&bytes[at(1, 1)..at(1, 1) + 4], &[80, 80, 80, 160]);
    assert_eq!(&bytes[at(1, 0)..at(1, 0) + 4], &[0, 0, 0, 0]);
    assert_eq!(&bytes[at(0, 0)..at(0, 0) + 4], &[80, 80, 80, 160]);
}

#[test]
fn fill_grid_letters_draws_each_cell() {
    let (w, h) = (200usize, 90usize);
    let mut pixels = vec![0u32; w * h];
    vimouse::grid_overlay::argb::fill_grid(&mut pixels, w, h, true, 1);
    // Cell (0, 0) centre (20, 15): box origin (15, 10), glyph pixel (gx, gy) at (16 + gx, 11 + gy);
    // 'Q' row 0 is 0x1E (columns 1-4).
    assert_eq!(glyph_for('Q').unwrap()[0], 0x1E);
    assert_eq!(pixels[11 * w + 18], LETTER);
    assert_eq!(pixels[11 * w + 16], OUTLINE);
    // Every cell gets ink.
    for row in 0..3 {
        for col in 0..5 {
            let (cx, cy) = cell_center(col, row, w, h);
            let ink = (cy - 5..cy + 5).any(|y| (cx - 5..cx + 5).any(|x| pixels[y * w + x] == LETTER));
            assert!(ink, "cell ({col}, {row})");
        }
    }
    // No grid lines.
    assert!(!pixels.iter().any(|&p| p == GRID_LINE));
}

#[test]
fn mark_glyphs_sorted_by_label() {
    let mut marks: Vec<Option<(i32, i32)>> = vec![None; 10];
    marks[9] = Some((1, 1)); // key 0
    marks[2] = Some((3, 3)); // key 3
    marks[0] = Some((2, 2)); // key 1
    let glyphs: Vec<MarkGlyph<(i32, i32)>> = mark_glyphs(&marks);
    let labels: Vec<char> = glyphs.iter().map(|g| g.label).collect();
    assert_eq!(labels, vec!['0', '1', '3']);
    assert_eq!(glyphs[0].position, (1, 1));
    assert_eq!(glyphs[2].position, (3, 3));
    assert!(mark_glyphs::<(i32, i32)>(&vec![None; 10]).is_empty());
}

#[test]
fn fill_marks_skips_off_monitor_marks() {
    let (w, h) = (40usize, 20usize);
    let mut pixels = vec![5u32; w * h];
    let marks = vec![('1', Some((10usize, 10usize))), ('2', None)];
    vimouse::mark_overlay::argb::fill_marks(&mut pixels, w, h, &marks, 1);
    assert!(pixels.iter().any(|&p| p == LETTER));
    assert!(!pixels.iter().any(|&p| p == 5));
    let mut empty = vec![5u32; w * h];
    vimouse::mark_overlay::bgra::fill_marks(&mut empty, w, h, &vec![('1', None)], 1);
    assert!(empty.iter().all(|&p| p == 5));
    let mut bytes = vec![5u8; w * h * 4];
    vimouse::mark_overlay::bgra_bytes::fill_marks(&mut bytes, w, h, &marks, 1);
    assert!(bytes.chunks(4).any(|c| c == [224, 224, 224, 224]));
}

#[test]
fn mode_line_colors_and_fill() {
    assert_eq!(mode_line_pixel(Mode::Normal), 0x0028_96E6);
    assert_eq!(mode_line_pixel(Mode::Insert), 0x00E6_9628);
    let mut buffer = vec![0u32; 5];
    fill_mode_line(&mut buffer, 3, 9);
    assert_eq!(buffer, vec![9, 9, 9, 0, 0]);
    fill_mode_line(&mut buffer, 10, 4);
    assert_eq!(buffer, vec![4; 5]);
}

#[test]
fn mode_line_geometry() {
    assert_eq!(MODE_OVERLAY_POSITION, ModeOverlayPos::Bottom);
    assert!(ModeOverlayPos::Top.is_horizontal());
    assert!(!ModeOverlayPos::Left.is_horizontal());
    assert_eq!(line_physical_size(ModeOverlayPos::Bottom, 1920, 3), (1920, 3));
    assert_eq!(line_physical_size(ModeOverlayPos::Right, 1080, 0), (1, 1080));
    assert_eq!(line_physical_size(ModeOverlayPos::Top, 0, 2), (1, 2));
}

#[test]
fn mode_badge_colors() {
    assert_eq!(Mode::Normal.label(), 'N');
    assert_eq!(Mode::Insert.label(), 'I');
    assert_eq!(Mode::Normal.background(), [30, 160, 98, 255]);
    assert_eq!(Mode::Insert.background(), [44, 55, 72, 255]);
    assert_eq!(Mode::Normal.color(), [40, 150, 230, 255]);
}

#[test]
fn surface_cache_refills_only_when_stale() {
    let mut imp: OverlaySurfaceImp<u32> = OverlaySurfaceImp::new(0, 0);
    assert!(imp.refresh(4, 2, 7, 0, 1));
    assert_eq!(imp.pixel_cache, vec![0u32; 8]);
    imp.pixel_cache[0] = 9;
    assert!(!imp.refresh(4, 2, 7, 0, 1));
    assert_eq!(imp.pixel_cache[0], 9);
    assert!(imp.refresh(4, 2, 8, 0, 1));
    assert_eq!(imp.pixel_cache[0], 0);
    assert!(imp.refresh(2, 2, 8, 0, 1));
    assert_eq!(imp.pixel_cache.len(), 4);
    let mut bytes: OverlaySurfaceImp<u8> = OverlaySurfaceImp::new(3, 3);
    assert!(bytes.refresh(3, 3, 0, 0, 4));
    assert_eq!(bytes.pixel_cache.len(), 36);
    assert!(imp.note_open_error());
    assert!(!imp.note_open_error());
}

#[test]
fn overlays_shown_per_mode() {
    let mut state: vimouse::state::SharedState<(i32, i32), u8, u64> = vimouse::state::SharedState::new((0, 0), 0, vec![0u8]);
    state.show_grid = true;
    let v = overlay_visibility(&state);
    assert!(v.mode_line && v.grid && !v.grid_letters && v.marks);
    state.mode = Mode::Insert;
    let v = overlay_visibility(&state);
    assert!(v.mode_line && !v.grid && !v.marks);
    state.show_overlays = false;
    let v = overlay_visibility(&state);
    assert!(!v.mode_line);
}

#[test]
fn overlay_update_decisions() {
    let u = mode_line_update(true, true, 0, 0);
    assert!(!u.hide_previous && !u.full_update);
    let u = mode_line_update(true, false, 0, 0);
    assert!(!u.hide_previous && u.full_update);
    let u = mode_line_update(true, true, 0, 1);
    assert!(u.hide_previous && u.full_update);
    assert!(hide_previous_grid(true, 0, 1));
    assert!(!hide_previous_grid(false, 0, 1));
    assert!(!hide_previous_grid(true, 1, 1));
    assert!(mark_slot_visible(true, true));
    assert!(!mark_slot_visible(true, false));
}

#[test]
fn startup_releases_stuck_buttons() {
    let mut state: vimouse::state::SharedState<(i32, i32), u8, u64> = vimouse::state::SharedState::new((4, 5), 0, vec![0u8]);
    queue_startup_actions(&mut state, true, false);
    assert_eq!(state.pending_actions.len(), 2);
    assert!(matches!(state.pending_actions[0], vimouse::state::Action::ButtonRelease(vimouse::keys::Button::Left)));
    assert!(matches!(state.pending_actions[1], vimouse::state::Action::MouseMove((4, 5))));
}

#[test]
fn mode_icon_shows_letter_on_background() {
    let size = 16usize;
    let mut frame = vec![0u8; size * size * 4];
    assert!(vimouse::mode_icon::draw_overlay(&mut frame, Mode::Normal, size));
    let px = |x: usize, y: usize| frame[(y * size + x) * 4..(y * size + x) * 4 + 4].to_vec();
    // 'N' has ink in columns 0-6 and rows 0-6: a 7 by 7 box centred at offset 4 (scale 1).
    assert_eq!(px(4, 4), vec![255, 255, 255, 255]);
    assert_eq!(px(6, 4), vec![30, 160, 98, 255]);
    assert_eq!(px(0, 0), vec![30, 160, 98, 255]);
    assert_eq!(px(10, 10), vec![255, 255, 255, 255]);
    assert_eq!(px(11, 4), vec![30, 160, 98, 255]);
}

#[test]
fn mode_icon_insert_letter_scaled() {
    let size = 40usize;
    let mut frame = vec![0u8; size * size * 4];
    assert!(vimouse::mode_icon::draw_overlay(&mut frame, Mode::Insert, size));
    // Scale (120 + 20) / 40 = 3; 'I' ink: columns 1-4, rows 0-6, so 12 by 21 pixels at (14, 9).
    let px = |x: usize, y: usize| frame[(y * size + x) * 4..(y * size + x) * 4 + 4].to_vec();
    assert_eq!(px(14, 9), vec![255, 255, 255, 255]);
    assert_eq!(px(13, 9), vec![44, 55, 72, 255]);
    assert_eq!(px(25, 9), vec![255, 255, 255, 255]);
    assert_eq!(px(26, 9), vec![44, 55, 72, 255]);
    // Row 1 of 'I' is 0x0C: columns 2-3 only.
    assert_eq!(px(14, 12), vec![44, 55, 72, 255]);
    assert_eq!(px(17, 12), vec![255, 255, 255, 255]);
}

#[test]
fn mode_icon_too_small_keeps_background() {
    let size = 4usize;
    let mut frame = vec![0u8; size * size * 4];
    assert!(!vimouse::mode_icon::draw_overlay(&mut frame, Mode::Normal, size));
    assert!(frame.chunks(4).all(|c| c == [30, 160, 98, 255]));
}
