//! Layout of the jump-grid overlay: where the grid lines and the cell letters go, and the
//! pixel buffers they are drawn into, one submodule per pixel format.
use crate::glyph::draw_label;
use crate::keys::{grid_key, grid_position, jump_key, label_of, lemma_grid_position, Key, JUMP_GRID_COLS, JUMP_GRID_ROWS};
use crate::pixels::{lemma_index_row, lemma_index_split, lemma_index_unique, lemma_pixel_in_bounds, lemma_pixel_index};
use vstd::prelude::*;

pub mod argb;
pub mod bgra;
pub mod bgra_bytes;

verus! {

/// Width of the grid lines, in pixels.
pub const GRID_THICKNESS: usize = 1;
/// Opacity of the grid lines (0-255).
pub const GRID_ALPHA: u8 = 160;
/// Grey level of the grid lines (0-255).
pub const GRID_BRIGHTNESS: u8 = 128;

/// Centre of line `i` of the `cells + 1` lines that bound `cells` cells along an axis `length`
/// pixels long: the first line at `first`, the inner ones at `i * length / cells`, the last on
/// the last pixel.
pub open spec fn line_center(i: int, length: int, cells: int, first: int) -> int {
    if i == 0 {
        first
    } else if i < cells {
        i * length / cells
    } else if length >= 1 {
        length - 1
    } else {
        0
    }
}

/// How many lines bound `cells` cells (the first and the last line always exist).
pub open spec fn line_count(cells: int) -> int {
    if cells == 0 { 2 } else { cells + 1 }
}

/// First pixel of the line centred on `center`, kept inside an axis `length` pixels long.
pub open spec fn line_start(center: int, length: int) -> int {
    let t = GRID_THICKNESS as int;
    let a = if center >= t / 2 { center - t / 2 } else { 0 };
    let b = if length >= t { length - t } else { 0 };
    if a <= b { a } else { b }
}

/// One past the last pixel of the line centred on `center`.
pub open spec fn line_end(center: int, length: int) -> int {
    let e = line_start(center, length) + GRID_THICKNESS as int;
    if e <= length { e } else { length }
}

/// Pixel `v` of an axis lies on one of the first `k` lines.
pub open spec fn covered(v: int, length: int, cells: int, first: int, k: nat) -> bool
    decreases k,
{
    if k == 0 {
        false
    } else {
        covered(v, length, cells, first, (k - 1) as nat) || {
            let c = line_center(k - 1, length, cells, first);
            line_start(c, length) <= v < line_end(c, length)
        }
    }
}

/// Pixel (`x`, `y`) of a `w` by `h` overlay lies on a grid line; the top line is centred on
/// row `first_row`.
pub open spec fn on_grid_line(x: int, y: int, w: int, h: int, first_row: int) -> bool {
    ||| covered(x, w, JUMP_GRID_COLS as int, 0, line_count(JUMP_GRID_COLS as int) as nat)
    ||| covered(y, h, JUMP_GRID_ROWS as int, first_row, line_count(JUMP_GRID_ROWS as int) as nat)
}

fn line_centers(length: usize, cells: usize, first: usize) -> (r: Vec<usize>)
    requires
        cells * length <= usize::MAX,
    ensures
        r@.len() == line_count(cells as int),
        forall|i: int| 0 <= i < r@.len() ==> #[trigger] r@[i] as int == line_center(i, length as int, cells as int, first as int),
{
    let mut r: Vec<usize> = Vec::new();
    r.push(first);
    let mut i: usize = 1;
    while i < cells
        invariant
            1 <= i,
            cells * length <= usize::MAX,
            i <= cells || i == 1,
            r@.len() == i,
            forall|j: int| 0 <= j < r@.len() ==> #[trigger] r@[j] as int == line_center(j, length as int, cells as int, first as int),
        decreases cells - i,
    {
        assert(i * length <= cells * length) by (nonlinear_arith)
            requires
                i < cells,
        ;
        r.push(i * length / cells);
        i = i + 1;
    }
    r.push(length.saturating_sub(1));
    r
}

/// The centres of the lines that bound `cells` cells along an axis `length` pixels long: the
/// first pixel, each inner boundary, and the last pixel.
pub fn axis_line_centers(length: usize, cells: usize) -> (r: Vec<usize>)
    requires
        cells * length <= usize::MAX,
    ensures
        r@.len() == line_count(cells as int),
        forall|i: int| 0 <= i < r@.len() ==> #[trigger] r@[i] as int == line_center(i, length as int, cells as int, 0),
{
    line_centers(length, cells, 0)
}

/// As `axis_line_centers`, with the first line one pixel in: the macOS compositor does not
/// show the top pixel row of an overlay.
pub fn axis_line_centers_y(length: usize, cells: usize) -> (r: Vec<usize>)
    requires
        cells * length <= usize::MAX,
    ensures
        r@.len() == line_count(cells as int),
        forall|i: int| 0 <= i < r@.len() ==> #[trigger] r@[i] as int == line_center(i, length as int, cells as int, 1),
{
    line_centers(length, cells, 1)
}

/// The pixels `start..end` that the line centred on `center` covers along an axis `length`
/// pixels long.
pub fn line_range(center: usize, length: usize) -> (r: (usize, usize))
    ensures
        r.0 == line_start(center as int, length as int),
        r.1 == line_end(center as int, length as int),
        r.1 <= length,
{
    let a = center.saturating_sub(GRID_THICKNESS / 2);
    let b = length.saturating_sub(GRID_THICKNESS);
    let start = if a <= b { a } else { b };
    let e = start + GRID_THICKNESS;
    let end = if e <= length { e } else { length };
    (start, end)
}

/// Centre of cell (`col`, `row`) of the jump grid on a `w` by `h` overlay, along one axis.
pub open spec fn cell_center_along(i: int, length: int, cells: int) -> int {
    i * length / cells + length / cells / 2
}

/// The centre pixel of grid cell (`col`, `row`) on a `w` by `h` overlay, where its letter goes.
pub fn cell_center(col: usize, row: usize, w: usize, h: usize) -> (c: (usize, usize))
    requires
        col < JUMP_GRID_COLS,
        row < JUMP_GRID_ROWS,
        JUMP_GRID_COLS * w <= usize::MAX,
        JUMP_GRID_ROWS * h <= usize::MAX,
    ensures
        c.0 == cell_center_along(col as int, w as int, JUMP_GRID_COLS as int),
        c.1 == cell_center_along(row as int, h as int, JUMP_GRID_ROWS as int),
        c.0 <= w,
        c.1 <= h,
{
    assert(col * w <= JUMP_GRID_COLS * w) by (nonlinear_arith)
        requires
            col < JUMP_GRID_COLS,
    ;
    assert(row * h <= JUMP_GRID_ROWS * h) by (nonlinear_arith)
        requires
            row < JUMP_GRID_ROWS,
    ;
    proof {
        lemma_center_in_bounds(col as int, w as int, JUMP_GRID_COLS as int);
        lemma_center_in_bounds(row as int, h as int, JUMP_GRID_ROWS as int);
    }
    let cx = (col * w / JUMP_GRID_COLS) + (w / JUMP_GRID_COLS / 2);
    let cy = (row * h / JUMP_GRID_ROWS) + (h / JUMP_GRID_ROWS / 2);
    (cx, cy)
}

/// A cell centre never lies past the end of its axis.
pub proof fn lemma_center_in_bounds(i: int, length: int, cells: int)
    requires
        0 <= i < cells,
        0 <= length,
    ensures
        0 <= cell_center_along(i, length, cells) <= length,
{
    let q = length / cells;
    let r = length % cells;
    vstd::arithmetic::div_mod::lemma_fundamental_div_mod(length, cells);
    vstd::arithmetic::div_mod::lemma_div_pos_is_pos(length, cells);
    vstd::arithmetic::div_mod::lemma_mod_pos_bound(length, cells);
    vstd::arithmetic::mul::lemma_mul_inequality(i, cells - 1, length);
    vstd::arithmetic::mul::lemma_mul_nonnegative(i, length);
    assert((cells - 1) * length <= cells * (length - q)) by (nonlinear_arith)
        requires
            length == cells * q + r,
            0 <= r,
    ;
    assert(q <= length) by (nonlinear_arith)
        requires
            length == cells * q + r,
            0 <= r,
            0 <= q,
            1 <= cells,
    ;
    vstd::arithmetic::div_mod::lemma_div_is_ordered(i * length, (cells - 1) * length, cells);
    vstd::arithmetic::div_mod::lemma_div_is_ordered((cells - 1) * length, cells * (length - q), cells);
    vstd::arithmetic::div_mod::lemma_div_multiples_vanish(length - q, cells);
    vstd::arithmetic::div_mod::lemma_div_pos_is_pos(i * length, cells);
    vstd::arithmetic::div_mod::lemma_div_pos_is_pos(q, 2);
}

/// Paints the rectangle `x0..x1` by `y0..y1` of a `w` by `h` buffer of packed pixels with
/// `color`, row by row.
pub fn paint_rect(pixels: &mut Vec<u32>, w: usize, h: usize, x0: usize, x1: usize, y0: usize, y1: usize, color: u32)
    requires
        old(pixels)@.len() == w * h,
        x1 <= w,
        y1 <= h,
    ensures
        final(pixels)@.len() == old(pixels)@.len(),
        forall|p: int| 0 <= p < old(pixels)@.len() ==> #[trigger] final(pixels)@[p] == if x0 <= p % (w as int) < x1 && y0 <= p / (w as int) < y1 {
            color
        } else {
            old(pixels)@[p]
        },
{
    let ghost old_px = old(pixels)@;
    let ghost wi = w as int;
    let n = pixels.len();
    if w == 0 || x0 >= x1 || y0 >= y1 {
        return;
    }
    let mut y = y0;
    while y < y1
        invariant
            w > 0,
            n == old_px.len(),
            wi == w as int,
            old_px.len() == w * h,
            pixels@.len() == old_px.len(),
            x1 <= w,
            y1 <= h,
            x0 < x1,
            y0 <= y <= y1,
            forall|p: int| 0 <= p < old_px.len() ==> #[trigger] pixels@[p] == if x0 <= p % wi < x1 && y0 <= p / wi < y {
                color } else { old_px[p] },
        decreases y1 - y,
    {
        let mut x = x0;
        while x < x1
            invariant
                w > 0,
                n == old_px.len(),
                wi == w as int,
                old_px.len() == w * h,
                pixels@.len() == old_px.len(),
                x1 <= w,
                y1 <= h,
                y0 <= y < y1,
                x0 <= x <= x1,
                forall|p: int| 0 <= p < old_px.len() ==> #[trigger] pixels@[p] == if x0 <= p % wi < x1 && (y0 <= p / wi < y || (p
                    / wi == y && p % wi < x)) { color } else { old_px[p] },
            decreases x1 - x,
        {
            proof {
                lemma_pixel_in_bounds(x as int, y as int, w as int, h as int);
            }
            pixels.set(y * w + x, color);
            proof {
                assert forall|p: int| 0 <= p < old_px.len() implies #[trigger] pixels@[p] == if x0 <= p % wi < x1 && (y0 <= p / wi
                    < y || (p / wi == y && p % wi < x + 1)) { color } else { old_px[p] } by {
                    lemma_index_split(p, wi);
                    lemma_pixel_index(x as int, y as int, wi);
                    if p / wi == y && p % wi == x {
                        lemma_index_unique(p, y * wi + x, wi);
                    }
                }
            }
            x = x + 1;
        }
        y = y + 1;
    }
}

/// A `w` by `h` buffer of packed pixels after drawing the grid lines in `color` over `before`.
pub open spec fn grid_lines_drawn(before: Seq<u32>, w: int, h: int, color: u32) -> Seq<u32> {
    Seq::new(before.len(), |p: int| if on_grid_line(p % w, p / w, w, h, 0) { color } else { before[p] })
}

/// Draws the grid lines over a `w` by `h` buffer of packed pixels: first the vertical lines,
/// then the horizontal ones.
pub fn draw_grid_lines(pixels: &mut Vec<u32>, w: usize, h: usize, color: u32)
    requires
        old(pixels)@.len() == w * h,
        JUMP_GRID_COLS * w <= usize::MAX,
        JUMP_GRID_ROWS * h <= usize::MAX,
    ensures
        final(pixels)@ == grid_lines_drawn(old(pixels)@, w as int, h as int, color),
{
    let ghost old_px = old(pixels)@;
    let ghost wi = w as int;
    if w == 0 {
        assert(pixels@ =~= grid_lines_drawn(old_px, w as int, h as int, color));
        return;
    }
    let xs = axis_line_centers(w, JUMP_GRID_COLS);
    let mut i: usize = 0;
    while i < xs.len()
        invariant
            w > 0,
            wi == w as int,
            old_px.len() == w * h,
            pixels@.len() == old_px.len(),
            xs@.len() == line_count(JUMP_GRID_COLS as int),
            forall|k: int| 0 <= k < xs@.len() ==> #[trigger] xs@[k] as int == line_center(k, w as int, JUMP_GRID_COLS as int, 0),
            i <= xs@.len(),
            forall|p: int| 0 <= p < old_px.len() ==> #[trigger] pixels@[p] == if covered(p % wi, wi, JUMP_GRID_COLS as int, 0, i as nat) {
                color } else { old_px[p] },
        decreases xs@.len() - i,
    {
        let (start, end) = line_range(xs[i], w);
        paint_rect(pixels, w, h, start, end, 0, h, color);
        proof {
            assert forall|p: int| 0 <= p < old_px.len() implies #[trigger] pixels@[p] == if covered(p % wi, wi, JUMP_GRID_COLS as int, 0, (i + 1) as nat) {
                color } else { old_px[p] } by {
                lemma_index_split(p, wi);
                lemma_index_row(p, wi, h as int);
            }
        }
        i = i + 1;
    }
    let ys = axis_line_centers(h, JUMP_GRID_ROWS);
    let mut j: usize = 0;
    while j < ys.len()
        invariant
            w > 0,
            wi == w as int,
            old_px.len() == w * h,
            pixels@.len() == old_px.len(),
            ys@.len() == line_count(JUMP_GRID_ROWS as int),
            forall|k: int| 0 <= k < ys@.len() ==> #[trigger] ys@[k] as int == line_center(k, h as int, JUMP_GRID_ROWS as int, 0),
            j <= ys@.len(),
            forall|p: int| 0 <= p < old_px.len() ==> #[trigger] pixels@[p] == if covered(p % wi, wi, JUMP_GRID_COLS as int, 0, line_count(JUMP_GRID_COLS as int) as nat)
                || covered(p / wi, h as int, JUMP_GRID_ROWS as int, 0, j as nat) { color } else { old_px[p] },
        decreases ys@.len() - j,
    {
        let (start, end) = line_range(ys[j], h);
        paint_rect(pixels, w, h, 0, w, start, end, color);
        proof {
            assert forall|p: int| 0 <= p < old_px.len() implies #[trigger] pixels@[p] == if covered(p % wi, wi, JUMP_GRID_COLS as int, 0, line_count(JUMP_GRID_COLS as int) as nat)
                || covered(p / wi, h as int, JUMP_GRID_ROWS as int, 0, (j + 1) as nat) { color } else { old_px[p] } by {
                lemma_index_split(p, wi);
                lemma_index_row(p, wi, h as int);
            }
        }
        j = j + 1;
    }
    assert(pixels@ =~= grid_lines_drawn(old_px, w as int, h as int, color));
}

/// Sets every pixel of the buffer to 0 (fully transparent).
pub fn clear_pixels(pixels: &mut Vec<u32>)
    ensures
        final(pixels)@ == Seq::new(old(pixels)@.len(), |p: int| 0u32),
{
    let n = pixels.len();
    let mut i: usize = 0;
    while i < n
        invariant
            n == pixels@.len(),
            n == old(pixels)@.len(),
            i <= n,
            forall|p: int| 0 <= p < i ==> #[trigger] pixels@[p] == 0u32,
        decreases n - i,
    {
        pixels.set(i, 0);
        i = i + 1;
    }
    assert(pixels@ =~= Seq::new(old(pixels)@.len(), |p: int| 0u32));
}

/// A `w` by `h` buffer of packed pixels after drawing, over `before`, the letters of the
/// first `k` grid cells (row by row, left to right) at glyph scale `s`.
pub open spec fn grid_letters_drawn(before: Seq<u32>, w: int, h: int, s: int, letter: u32, outline: u32, k: nat) -> Seq<u32>
    decreases k,
{
    if k == 0 {
        before
    } else {
        let prev = grid_letters_drawn(before, w, h, s, letter, outline, (k - 1) as nat);
        let row = (k - 1) / JUMP_GRID_COLS as int;
        let col = (k - 1) % JUMP_GRID_COLS as int;
        match label_of(grid_key(row, col)) {
            Some(ch) => draw_label(
                prev,
                w,
                cell_center_along(col, w, JUMP_GRID_COLS as int),
                cell_center_along(row, h, JUMP_GRID_ROWS as int),
                ch,
                s,
                letter,
                outline,
            ),
            None => prev,
        }
    }
}

/// The letter drawn in each grid cell names the key that jumps to that cell: for every jump
/// key, with (`row`, `col`) the cell it jumps to, the step that draws cell `row * 5 + col`
/// draws that key's label centred on that cell, column along the width and row along the
/// height, over what the earlier cells left.
pub proof fn law_grid_letter_names_its_jump_key(before: Seq<u32>, w: int, h: int, s: int, letter: u32, outline: u32, key: Key)
    requires
        jump_key(key),
    ensures
        ({
            let (row, col) = grid_position(key);
            let k = row * JUMP_GRID_COLS + col;
            &&& 0 <= row < JUMP_GRID_ROWS && 0 <= col < JUMP_GRID_COLS
            &&& label_of(key) is Some
            &&& grid_letters_drawn(before, w, h, s, letter, outline, (k + 1) as nat) == draw_label(
                grid_letters_drawn(before, w, h, s, letter, outline, k as nat),
                w,
                cell_center_along(col, w, JUMP_GRID_COLS as int),
                cell_center_along(row, h, JUMP_GRID_ROWS as int),
                label_of(key)->0,
                s,
                letter,
                outline,
            )
        }),
{
    let (r, c) = choose|r: int, c: int|
        0 <= r < JUMP_GRID_ROWS && 0 <= c < JUMP_GRID_COLS && #[trigger] grid_key(r, c) == key;
    lemma_grid_position(r, c);
    let k = r * JUMP_GRID_COLS + c;
    assert(k / JUMP_GRID_COLS as int == r && k % JUMP_GRID_COLS as int == c);
    assert(grid_letters_drawn(before, w, h, s, letter, outline, (k + 1) as nat) == draw_label(
        grid_letters_drawn(before, w, h, s, letter, outline, k as nat),
        w,
        cell_center_along(c, w, JUMP_GRID_COLS as int),
        cell_center_along(r, h, JUMP_GRID_ROWS as int),
        label_of(key)->0,
        s,
        letter,
                outline,
    ));
}

/// Number of cells of the jump grid.
pub open spec fn grid_cells() -> nat {
    (JUMP_GRID_COLS * JUMP_GRID_ROWS) as nat
}

/// The fully transparent buffer of `n` packed pixels.
pub open spec fn cleared(n: nat) -> Seq<u32> {
    Seq::new(n, |p: int| 0u32)
}

} // verus!
