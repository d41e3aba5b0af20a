//! The grid overlay in premultiplied BGRA bytes (4 bytes per pixel, B G R A), as a macOS
//! bitmap context (32-bit little-endian, alpha first) takes it.
use crate::glyph::{blit_label_bgra_u8, bytes_letter, bytes_outline, draw_label_bytes, effective_scale, glyph_fits, premultiplied, premultiply};
use crate::grid_overlay::{
    axis_line_centers, axis_line_centers_y, cell_center, cell_center_along, covered, grid_cells, line_center, line_count, line_range,
    on_grid_line, GRID_ALPHA, GRID_BRIGHTNESS,
};
use crate::keys::{grid_key, grid_position, jump_grid_key, jump_key, key_label, label_of, lemma_grid_position, Key, JUMP_GRID_COLS, JUMP_GRID_ROWS};
use crate::pixels::{lemma_index_row, lemma_index_split, lemma_index_unique, lemma_pixel_in_bounds, lemma_pixel_index};
use vstd::prelude::*;

verus! {

/// Byte `q` of a buffer of 4-byte pixels holding the (grey level, opacity) pair `ga`.
pub open spec fn pixel_byte(q: int, ga: (u8, u8)) -> u8 {
    if q % 4 == 3 { ga.1 } else { ga.0 }
}

/// Paints the rectangle `x0..x1` by `y0..y1` of a `w` by `h` buffer of 4-byte pixels with the
/// (grey level, opacity) pair `ga`, row by row.
pub fn paint_rect_bytes(pixels: &mut Vec<u8>, w: usize, h: usize, x0: usize, x1: usize, y0: usize, y1: usize, ga: (u8, u8))
    requires
        old(pixels)@.len() == w * h * 4,
        x1 <= w,
        y1 <= h,
    ensures
        final(pixels)@.len() == old(pixels)@.len(),
        forall|q: int| 0 <= q < old(pixels)@.len() ==> #[trigger] final(pixels)@[q] == if x0 <= (q / 4) % (w as int) < x1 && y0 <= (q / 4) / (w as int) < y1 {
            pixel_byte(q, ga)
        } else {
            old(pixels)@[q]
        },
{
    let ghost old_px = old(pixels)@;
    let ghost wi = w as int;
    let n = pixels.len();
    if w == 0 || x0 >= x1 || y0 >= y1 {
        return;
    }
    let mut y = y0;
    while y < y1
        invariant
            w > 0,
            n == old_px.len(),
            wi == w as int,
            old_px.len() == w * h * 4,
            pixels@.len() == old_px.len(),
            x1 <= w,
            y1 <= h,
            x0 < x1,
            y0 <= y <= y1,
            forall|q: int| 0 <= q < old_px.len() ==> #[trigger] pixels@[q] == if x0 <= (q / 4) % wi < x1 && y0 <= (q / 4) / wi < y {
                pixel_byte(q, ga) } else { old_px[q] },
        decreases y1 - y,
    {
        let mut x = x0;
        while x < x1
            invariant
                w > 0,
                n == old_px.len(),
                wi == w as int,
                old_px.len() == w * h * 4,
                pixels@.len() == old_px.len(),
                x1 <= w,
                y1 <= h,
                y0 <= y < y1,
                x0 <= x <= x1,
                forall|q: int| 0 <= q < old_px.len() ==> #[trigger] pixels@[q] == if x0 <= (q / 4) % wi < x1 && (y0 <= (q / 4) / wi < y || ((q / 4)
                    / wi == y && (q / 4) % wi < x)) { pixel_byte(q, ga) } else { old_px[q] },
            decreases x1 - x,
        {
            proof {
                lemma_pixel_in_bounds(x as int, y as int, w as int, h as int);
            }
            assert((y * w + x) * 4 + 3 < n) by (nonlinear_arith)
                requires
                    y * w + x < w * h,
                    n == w * h * 4,
            ;
            let i = (y * w + x) * 4;
            pixels.set(i, ga.0);
            pixels.set(i + 1, ga.0);
            pixels.set(i + 2, ga.0);
            pixels.set(i + 3, ga.1);
            proof {
                assert forall|q: int| 0 <= q < old_px.len() implies #[trigger] pixels@[q] == if x0 <= (q / 4) % wi < x1 && (y0 <= (q / 4)
                    / wi < y || ((q / 4) / wi == y && (q / 4) % wi < x + 1)) { pixel_byte(q, ga) } else { old_px[q] } by {
                    let p = q / 4;
                    lemma_index_split(p, wi);
                    lemma_pixel_index(x as int, y as int, wi);
                    if p / wi == y && p % wi == x {
                        lemma_index_unique(p, y * wi + x, wi);
                    }
                }
            }
            x = x + 1;
        }
        y = y + 1;
    }
}

/// A `w` by `h` buffer of 4-byte pixels after drawing the grid lines, with the top line one
/// row in, in the (grey level, opacity) pair `ga` over `before`.
pub open spec fn grid_lines_drawn_bytes(before: Seq<u8>, w: int, h: int, ga: (u8, u8)) -> Seq<u8> {
    Seq::new(before.len(), |q: int| if on_grid_line((q / 4) % w, (q / 4) / w, w, h, 1) { pixel_byte(q, ga) } else { before[q] })
}

/// Draws the grid lines over a `w` by `h` buffer of 4-byte pixels: first the vertical lines,
/// then the horizontal ones, the top one a row in.
pub fn draw_grid_lines_bytes(pixels: &mut Vec<u8>, w: usize, h: usize, ga: (u8, u8))
    requires
        old(pixels)@.len() == w * h * 4,
        JUMP_GRID_COLS * w <= usize::MAX,
        JUMP_GRID_ROWS * h <= usize::MAX,
    ensures
        final(pixels)@ == grid_lines_drawn_bytes(old(pixels)@, w as int, h as int, ga),
{
    let ghost old_px = old(pixels)@;
    let ghost wi = w as int;
    if w == 0 {
        assert(pixels@ =~= grid_lines_drawn_bytes(old_px, w as int, h as int, ga));
        return;
    }
    let xs = axis_line_centers(w, JUMP_GRID_COLS);
    let mut i: usize = 0;
    while i < xs.len()
        invariant
            w > 0,
            wi == w as int,
            old_px.len() == w * h * 4,
            pixels@.len() == old_px.len(),
            xs@.len() == line_count(JUMP_GRID_COLS as int),
            forall|k: int| 0 <= k < xs@.len() ==> #[trigger] xs@[k] as int == line_center(k, w as int, JUMP_GRID_COLS as int, 0),
            i <= xs@.len(),
            forall|q: int| 0 <= q < old_px.len() ==> #[trigger] pixels@[q] == if covered((q / 4) % wi, wi, JUMP_GRID_COLS as int, 0, i as nat) {
                pixel_byte(q, ga) } else { old_px[q] },
        decreases xs@.len() - i,
    {
        let (start, end) = line_range(xs[i], w);
        paint_rect_bytes(pixels, w, h, start, end, 0, h, ga);
        proof {
            assert forall|q: int| 0 <= q < old_px.len() implies #[trigger] pixels@[q] == if covered((q / 4) % wi, wi, JUMP_GRID_COLS as int, 0, (i + 1) as nat) {
                pixel_byte(q, ga) } else { old_px[q] } by {
                lemma_index_split(q / 4, wi);
                lemma_index_row(q / 4, wi, h as int);
            }
        }
        i = i + 1;
    }
    let ys = axis_line_centers_y(h, JUMP_GRID_ROWS);
    let mut j: usize = 0;
    while j < ys.len()
        invariant
            w > 0,
            wi == w as int,
            old_px.len() == w * h * 4,
            pixels@.len() == old_px.len(),
            ys@.len() == line_count(JUMP_GRID_ROWS as int),
            forall|k: int| 0 <= k < ys@.len() ==> #[trigger] ys@[k] as int == line_center(k, h as int, JUMP_GRID_ROWS as int, 1),
            j <= ys@.len(),
            forall|q: int| 0 <= q < old_px.len() ==> #[trigger] pixels@[q] == if covered((q / 4) % wi, wi, JUMP_GRID_COLS as int, 0, line_count(JUMP_GRID_COLS as int) as nat)
                || covered((q / 4) / wi, h as int, JUMP_GRID_ROWS as int, 1, j as nat) { pixel_byte(q, ga) } else { old_px[q] },
        decreases ys@.len() - j,
    {
        let (start, end) = line_range(ys[j], h);
        paint_rect_bytes(pixels, w, h, 0, w, start, end, ga);
        proof {
            assert forall|q: int| 0 <= q < old_px.len() implies #[trigger] pixels@[q] == if covered((q / 4) % wi, wi, JUMP_GRID_COLS as int, 0, line_count(JUMP_GRID_COLS as int) as nat)
                || covered((q / 4) / wi, h as int, JUMP_GRID_ROWS as int, 1, (j + 1) as nat) { pixel_byte(q, ga) } else { old_px[q] } by {
                lemma_index_split(q / 4, wi);
                lemma_index_row(q / 4, wi, h as int);
            }
        }
        j = j + 1;
    }
    assert(pixels@ =~= grid_lines_drawn_bytes(old_px, w as int, h as int, ga));
}

/// Sets every byte of the buffer to 0 (fully transparent).
pub fn clear_bytes(pixels: &mut Vec<u8>)
    ensures
        final(pixels)@ == Seq::new(old(pixels)@.len(), |q: int| 0u8),
{
    let n = pixels.len();
    let mut i: usize = 0;
    while i < n
        invariant
            n == pixels@.len(),
            n == old(pixels)@.len(),
            i <= n,
            forall|q: int| 0 <= q < i ==> #[trigger] pixels@[q] == 0u8,
        decreases n - i,
    {
        pixels.set(i, 0);
        i = i + 1;
    }
    assert(pixels@ =~= Seq::new(old(pixels)@.len(), |q: int| 0u8));
}

/// A `w` by `h` buffer of 4-byte pixels after drawing, over `before`, the letters of the first
/// `k` grid cells (row by row, left to right) at glyph scale `s`.
pub open spec fn grid_letters_drawn_bytes(before: Seq<u8>, w: int, h: int, s: int, k: nat) -> Seq<u8>
    decreases k,
{
    if k == 0 {
        before
    } else {
        let prev = grid_letters_drawn_bytes(before, w, h, s, (k - 1) as nat);
        let row = (k - 1) / JUMP_GRID_COLS as int;
        let col = (k - 1) % JUMP_GRID_COLS as int;
        match label_of(grid_key(row, col)) {
            Some(ch) => draw_label_bytes(
                prev,
                w,
                cell_center_along(col, w, JUMP_GRID_COLS as int),
                cell_center_along(row, h, JUMP_GRID_ROWS as int),
                ch,
                s,
                bytes_letter(),
                bytes_outline(),
            ),
            None => prev,
        }
    }
}

/// The letter drawn in each grid cell names the key that jumps to that cell: for every jump
/// key, with (`row`, `col`) the cell it jumps to, the step that draws cell `row * 5 + col`
/// draws that key's label centred on that cell, column along the width and row along the
/// height, over what the earlier cells left.
pub proof fn law_grid_letter_names_its_jump_key_bytes(before: Seq<u8>, w: int, h: int, s: int, key: Key)
    requires
        jump_key(key),
    ensures
        ({
            let (row, col) = grid_position(key);
            let k = row * JUMP_GRID_COLS + col;
            &&& 0 <= row < JUMP_GRID_ROWS && 0 <= col < JUMP_GRID_COLS
            &&& label_of(key) is Some
            &&& grid_letters_drawn_bytes(before, w, h, s, (k + 1) as nat) == draw_label_bytes(
                grid_letters_drawn_bytes(before, w, h, s, k as nat),
                w,
                cell_center_along(col, w, JUMP_GRID_COLS as int),
                cell_center_along(row, h, JUMP_GRID_ROWS as int),
                label_of(key)->0,
                s,
                bytes_letter(),
                bytes_outline(),
            )
        }),
{
    let (r, c) = choose|r: int, c: int|
        0 <= r < JUMP_GRID_ROWS && 0 <= c < JUMP_GRID_COLS && #[trigger] grid_key(r, c) == key;
    lemma_grid_position(r, c);
    let k = r * JUMP_GRID_COLS + c;
    assert(k / JUMP_GRID_COLS as int == r && k % JUMP_GRID_COLS as int == c);
    assert(grid_letters_drawn_bytes(before, w, h, s, (k + 1) as nat) == draw_label_bytes(
        grid_letters_drawn_bytes(before, w, h, s, k as nat),
        w,
        cell_center_along(c, w, JUMP_GRID_COLS as int),
        cell_center_along(r, h, JUMP_GRID_ROWS as int),
        label_of(key)->0,
        s,
        bytes_letter(),
                bytes_outline(),
    ));
}

/// The (grey level, opacity) of the grid lines.
pub open spec fn grid_line_bytes() -> (u8, u8) {
    (premultiplied(GRID_BRIGHTNESS, GRID_ALPHA) as u8, GRID_ALPHA)
}

/// Clears a `w` by `h` buffer of 4-byte pixels and draws either the grid lines or, with
/// `show_letters`, the cell letters at glyph scale `scale` (at least 1).
pub fn fill_grid(pixels: &mut Vec<u8>, w: usize, h: usize, show_letters: bool, scale: usize)
    requires
        old(pixels)@.len() == w * h * 4,
        JUMP_GRID_COLS * w <= usize::MAX,
        JUMP_GRID_ROWS * h <= usize::MAX,
        glyph_fits(w as int, h as int, effective_scale(scale) as int),
    ensures
        final(pixels)@ == if show_letters {
            grid_letters_drawn_bytes(Seq::new(old(pixels)@.len(), |q: int| 0u8), w as int, h as int, effective_scale(scale) as int, grid_cells())
        } else {
            grid_lines_drawn_bytes(Seq::new(old(pixels)@.len(), |q: int| 0u8), w as int, h as int, grid_line_bytes())
        },
{
    clear_bytes(pixels);
    let ghost base = pixels@;
    if !show_letters {
        let pm = premultiply(GRID_BRIGHTNESS, GRID_ALPHA) as u8;
        draw_grid_lines_bytes(pixels, w, h, (pm, GRID_ALPHA));
    } else {
        let mut row: usize = 0;
        while row < JUMP_GRID_ROWS
            invariant
                row <= JUMP_GRID_ROWS,
                base.len() == w * h * 4,
                pixels@.len() == base.len(),
                JUMP_GRID_COLS * w <= usize::MAX,
                JUMP_GRID_ROWS * h <= usize::MAX,
                glyph_fits(w as int, h as int, effective_scale(scale) as int),
                pixels@ == grid_letters_drawn_bytes(base, w as int, h as int, effective_scale(scale) as int, (row * JUMP_GRID_COLS) as nat),
            decreases JUMP_GRID_ROWS - row,
        {
            let mut col: usize = 0;
            while col < JUMP_GRID_COLS
                invariant
                    row < JUMP_GRID_ROWS,
                    col <= JUMP_GRID_COLS,
                    base.len() == w * h * 4,
                    pixels@.len() == base.len(),
                    JUMP_GRID_COLS * w <= usize::MAX,
                    JUMP_GRID_ROWS * h <= usize::MAX,
                    glyph_fits(w as int, h as int, effective_scale(scale) as int),
                    pixels@ == grid_letters_drawn_bytes(base, w as int, h as int, effective_scale(scale) as int, (row * JUMP_GRID_COLS + col) as nat),
                decreases JUMP_GRID_COLS - col,
            {
                let ghost k = row * JUMP_GRID_COLS + col;
                assert(k / JUMP_GRID_COLS as int == row && k % JUMP_GRID_COLS as int == col);
                if let Some(ch) = key_label(jump_grid_key(row, col)) {
                    let (cx, cy) = cell_center(col, row, w, h);
                    blit_label_bgra_u8(pixels, w, h, cx, cy, ch, scale);
                }
                col = col + 1;
            }
            row = row + 1;
        }
    }
}

} // verus!
