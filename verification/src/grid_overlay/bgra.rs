//! The grid overlay in premultiplied BGRA (little-endian `u32` pixels, bytes B G R A), as a
//! Windows layered window takes it.
use crate::glyph::{bgra_letter, bgra_outline, blit_label_bgra_u32, effective_scale, glyph_fits, grey_pixel, premultiplied, premultiply};
use crate::grid_overlay::{
    cell_center, draw_grid_lines, grid_cells, grid_letters_drawn, grid_lines_drawn, GRID_ALPHA, GRID_BRIGHTNESS,
};
use crate::keys::{jump_grid_key, key_label, JUMP_GRID_COLS, JUMP_GRID_ROWS};
use vstd::prelude::*;

verus! {

/// The packed color of the grid lines.
pub open spec fn grid_line_pixel() -> u32 {
    grey_pixel(premultiplied(GRID_BRIGHTNESS, GRID_ALPHA), GRID_ALPHA)
}

/// Draws over a `w` by `h` buffer either the grid lines or, with `show_letters`, the cell
/// letters at glyph scale `scale` (at least 1).
pub fn fill_grid(pixels: &mut Vec<u32>, w: usize, h: usize, show_letters: bool, scale: usize)
    requires
        old(pixels)@.len() == w * h,
        JUMP_GRID_COLS * w <= usize::MAX,
        JUMP_GRID_ROWS * h <= usize::MAX,
        glyph_fits(w as int, h as int, effective_scale(scale) as int),
    ensures
        final(pixels)@ == if show_letters {
            grid_letters_drawn(old(pixels)@, w as int, h as int, effective_scale(scale) as int, bgra_letter(), bgra_outline(), grid_cells())
        } else {
            grid_lines_drawn(old(pixels)@, w as int, h as int, grid_line_pixel())
        },
{
    let ghost base = pixels@;
    if !show_letters {
        let pm = premultiply(GRID_BRIGHTNESS, GRID_ALPHA);
        let pixel: u32 = pm | (pm << 8u32) | (pm << 16u32) | ((GRID_ALPHA as u32) << 24u32);
        draw_grid_lines(pixels, w, h, pixel);
    } else {
        let mut row: usize = 0;
        while row < JUMP_GRID_ROWS
            invariant
                row <= JUMP_GRID_ROWS,
                base.len() == w * h,
                pixels@.len() == base.len(),
                JUMP_GRID_COLS * w <= usize::MAX,
                JUMP_GRID_ROWS * h <= usize::MAX,
                glyph_fits(w as int, h as int, effective_scale(scale) as int),
                pixels@ == grid_letters_drawn(base, w as int, h as int, effective_scale(scale) as int, bgra_letter(), bgra_outline(), (row * JUMP_GRID_COLS) as nat),
            decreases JUMP_GRID_ROWS - row,
        {
            let mut col: usize = 0;
            while col < JUMP_GRID_COLS
                invariant
                    row < JUMP_GRID_ROWS,
                    col <= JUMP_GRID_COLS,
                    base.len() == w * h,
                    pixels@.len() == base.len(),
                    JUMP_GRID_COLS * w <= usize::MAX,
                    JUMP_GRID_ROWS * h <= usize::MAX,
                    glyph_fits(w as int, h as int, effective_scale(scale) as int),
                    pixels@ == grid_letters_drawn(base, w as int, h as int, effective_scale(scale) as int, bgra_letter(), bgra_outline(), (row * JUMP_GRID_COLS + col) as nat),
                decreases JUMP_GRID_COLS - col,
            {
                let ghost k = row * JUMP_GRID_COLS + col;
                assert(k / JUMP_GRID_COLS as int == row && k % JUMP_GRID_COLS as int == col);
                if let Some(ch) = key_label(jump_grid_key(row, col)) {
                    let (cx, cy) = cell_center(col, row, w, h);
                    blit_label_bgra_u32(pixels, w, h, cx, cy, ch, scale);
                }
                col = col + 1;
            }
            row = row + 1;
        }
    }
}

} // verus!
