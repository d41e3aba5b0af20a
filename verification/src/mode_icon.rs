//! The mode icon: a small square in a corner of the monitor, in the mode's background color,
//! with the mode's letter (`N` or `I`) drawn in white, scaled with the icon and centred on the
//! letter's own ink.
use crate::glyph::{basic_font, basic_font_glyph, bit_set};
use crate::grid_overlay::bgra_bytes::paint_rect_bytes;
use crate::state::Mode;
use vstd::prelude::*;

verus! {

/// Column `c` of the glyph has ink in some row.
pub open spec fn ink_col(g: Seq<u8>, c: int) -> bool {
    exists|r: int| 0 <= r < 8 && #[trigger] bit_set(g[r], c)
}

/// The glyph has no ink at all.
pub open spec fn glyph_blank(g: Seq<u8>) -> bool {
    forall|r: int| 0 <= r < 8 ==> g[r] == 0
}

/// `lo..=hi` are exactly the rows from the first to the last with ink.
pub open spec fn ink_rows(g: Seq<u8>, lo: int, hi: int) -> bool {
    &&& 0 <= lo <= hi < 8
    &&& g[lo] != 0 && g[hi] != 0
    &&& forall|r: int| 0 <= r < lo ==> g[r] == 0
    &&& forall|r: int| hi < r < 8 ==> g[r] == 0
}

/// `lo..=hi` are exactly the columns from the first to the last with ink.
pub open spec fn ink_cols(g: Seq<u8>, lo: int, hi: int) -> bool {
    &&& 0 <= lo <= hi < 8
    &&& ink_col(g, lo) && ink_col(g, hi)
    &&& forall|c: int| 0 <= c < lo ==> !ink_col(g, c)
    &&& forall|c: int| hi < c < 8 ==> !ink_col(g, c)
}

/// The bounding box of the glyph's ink, as (first column, last column, first row, last row).
pub open spec fn ink_box(g: Seq<u8>) -> (int, int, int, int) {
    choose|b: (int, int, int, int)| ink_cols(g, b.0, b.1) && ink_rows(g, b.2, b.3)
}

/// The scale of the letter in an icon `size` pixels square: about three quarters of the icon
/// over 8 glyph rows, at least 1.
pub open spec fn icon_scale(size: int) -> int {
    let s = (size * 3 + 20) / 40;
    if s < 1 { 1 } else { s }
}

/// Width of the letter's ink at scale `s`.
pub open spec fn ink_width(g: Seq<u8>, s: int) -> int {
    (ink_box(g).1 - ink_box(g).0 + 1) * s
}

/// Height of the letter's ink at scale `s`.
pub open spec fn ink_height(g: Seq<u8>, s: int) -> int {
    (ink_box(g).3 - ink_box(g).2 + 1) * s
}

/// The letter's ink fits in an icon `size` pixels square.
pub open spec fn icon_glyph_fits(g: Seq<u8>, size: int) -> bool {
    ink_width(g, icon_scale(size)) <= size && ink_height(g, icon_scale(size)) <= size
}

/// Left edge of the scaled square of glyph column `col`, the ink being centred in the icon.
pub open spec fn cell_x(g: Seq<u8>, size: int, col: int) -> int {
    (size - ink_width(g, icon_scale(size))) / 2 + (col - ink_box(g).0) * icon_scale(size)
}

/// Top edge of the scaled square of glyph row `row`.
pub open spec fn cell_y(g: Seq<u8>, size: int, row: int) -> int {
    (size - ink_height(g, icon_scale(size))) / 2 + (row - ink_box(g).2) * icon_scale(size)
}

/// Pixel (`x`, `y`) of the icon lies in the scaled square of one of the first `k` glyph cells
/// (row by row) that have ink.
pub open spec fn icon_covered(g: Seq<u8>, size: int, x: int, y: int, k: nat) -> bool
    decreases k,
{
    if k == 0 {
        false
    } else {
        icon_covered(g, size, x, y, (k - 1) as nat) || {
            let row = (k - 1) / 8;
            let col = (k - 1) % 8;
            let s = icon_scale(size);
            &&& bit_set(g[row], col)
            &&& cell_x(g, size, col) <= x < cell_x(g, size, col) + s
            &&& cell_y(g, size, row) <= y < cell_y(g, size, row) + s
        }
    }
}

/// An icon `size` pixels square, as 4-byte pixels, after drawing the letter in white over
/// `before`: white exactly on the scaled squares of the glyph's ink.
pub open spec fn icon_glyph_drawn(before: Seq<u8>, size: int, g: Seq<u8>) -> Seq<u8> {
    Seq::new(before.len(), |q: int| if icon_covered(g, size, (q / 4) % size, (q / 4) / size, 64) { 255u8 } else { before[q] })
}

/// A buffer of 4-byte pixels with every whole pixel set to `rgba`.
pub open spec fn filled(before: Seq<u8>, rgba: Seq<u8>) -> Seq<u8> {
    Seq::new(before.len(), |q: int| if q < (before.len() / 4) * 4 { rgba[q % 4] } else { before[q] })
}

/// Sets every whole 4-byte pixel of the buffer to `rgba`.
pub fn fill_pixels(frame: &mut Vec<u8>, rgba: [u8; 4])
    ensures
        final(frame)@ == filled(old(frame)@, rgba@),
{
    let len = frame.len();
    let n = len / 4;
    let mut i: usize = 0;
    while i < n
        invariant
            n == len / 4,
            len == old(frame)@.len(),
            frame@.len() == old(frame)@.len(),
            i <= n,
            forall|q: int| 0 <= q < frame@.len() ==> #[trigger] frame@[q] == if q < i * 4 { rgba@[q % 4] } else { old(frame)@[q] },
        decreases n - i,
    {
        assert(i * 4 + 4 <= len) by (nonlinear_arith)
            requires
                i < n,
                n == len / 4,
        ;
        frame.set(i * 4, rgba[0]);
        frame.set(i * 4 + 1, rgba[1]);
        frame.set(i * 4 + 2, rgba[2]);
        frame.set(i * 4 + 3, rgba[3]);
        i = i + 1;
    }
    assert(frame@ =~= filled(old(frame)@, rgba@));
}

/// A row with ink has ink in some column.
proof fn lemma_row_ink(g: Seq<u8>, r: int)
    requires
        0 <= r < 8,
        g.len() == 8,
        g[r] != 0,
    ensures
        exists|c: int| 0 <= c < 8 && #[trigger] bit_set(g[r], c),
{
    let b = g[r];
    assert(b != 0 ==> ((b >> 0u8) & 1u8 == 1u8 || (b >> 1u8) & 1u8 == 1u8 || (b >> 2u8) & 1u8 == 1u8 || (b >> 3u8) & 1u8
        == 1u8 || (b >> 4u8) & 1u8 == 1u8 || (b >> 5u8) & 1u8 == 1u8 || (b >> 6u8) & 1u8 == 1u8 || (b >> 7u8) & 1u8 == 1u8))
        by (bit_vector);
    if bit_set(b, 0) {
    } else if bit_set(b, 1) {
    } else if bit_set(b, 2) {
    } else if bit_set(b, 3) {
    } else if bit_set(b, 4) {
    } else if bit_set(b, 5) {
    } else if bit_set(b, 6) {
    } else {
        assert(bit_set(b, 7));
    }
}

/// Whether column `col` of the glyph has ink.
fn column_has_ink(glyph: [u8; 8], col: usize) -> (r: bool)
    requires
        col < 8,
    ensures
        r == ink_col(glyph@, col as int),
{
    let mut row: usize = 0;
    while row < 8
        invariant
            col < 8,
            row <= 8,
            forall|r: int| 0 <= r < row ==> !bit_set(glyph@[r], col as int),
        decreases 8 - row,
    {
        if (glyph[row] >> (col as u8)) & 1u8 == 1u8 {
            assert(bit_set(glyph@[row as int], col as int));
            return true;
        }
        row = row + 1;
    }
    false
}

/// The bounding box of a glyph with ink: its first and last column and row with ink.
fn ink_bounds(glyph: [u8; 8]) -> (b: (usize, usize, usize, usize))
    requires
        !glyph_blank(glyph@),
    ensures
        (b.0 as int, b.1 as int, b.2 as int, b.3 as int) == ink_box(glyph@),
        ink_cols(glyph@, b.0 as int, b.1 as int),
        ink_rows(glyph@, b.2 as int, b.3 as int),
{
    let ghost g = glyph@;
    let mut min_row: usize = 8;
    let mut max_row: usize = 0;
    let mut row: usize = 0;
    while row < 8
        invariant
            g == glyph@,
            row <= 8,
            min_row <= 8,
            min_row == 8 ==> forall|r: int| 0 <= r < row ==> g[r] == 0,
            min_row < 8 ==> min_row <= max_row < row && g[min_row as int] != 0 && g[max_row as int] != 0,
            min_row < 8 ==> forall|r: int| 0 <= r < min_row ==> g[r] == 0,
            min_row < 8 ==> forall|r: int| max_row < r < row ==> g[r] == 0,
        decreases 8 - row,
    {
        if glyph[row] != 0 {
            if min_row == 8 {
                min_row = row;
            }
            max_row = row;
        }
        row = row + 1;
    }
    let mut min_col: usize = 8;
    let mut max_col: usize = 0;
    let mut col: usize = 0;
    while col < 8
        invariant
            g == glyph@,
            col <= 8,
            min_col <= 8,
            min_col == 8 ==> forall|c: int| 0 <= c < col ==> !ink_col(g, c),
            min_col < 8 ==> min_col <= max_col < col && ink_col(g, min_col as int) && ink_col(g, max_col as int),
            min_col < 8 ==> forall|c: int| 0 <= c < min_col ==> !ink_col(g, c),
            min_col < 8 ==> forall|c: int| max_col < c < col ==> !ink_col(g, c),
        decreases 8 - col,
    {
        if column_has_ink(glyph, col) {
            if min_col == 8 {
                min_col = col;
            }
            max_col = col;
        }
        col = col + 1;
    }
    proof {
        let r0 = choose|r: int| 0 <= r < 8 && g[r] != 0;
        lemma_row_ink(g, r0);
        let c0 = choose|c: int| 0 <= c < 8 && #[trigger] bit_set(g[r0], c);
        assert(ink_col(g, c0));
        assert(min_row < 8);
        assert(min_col < 8);
        let b = (min_col as int, max_col as int, min_row as int, max_row as int);
        assert(ink_rows(g, b.2, b.3));
        assert(ink_cols(g, b.0, b.1));
        let c = ink_box(g);
        assert(ink_cols(g, c.0, c.1) && ink_rows(g, c.2, c.3));
        assert(c == b);
    }
    (min_col, max_col, min_row, max_row)
}

/// A set bit means a nonzero row.
proof fn lemma_bit_ink(b: u8, c: int)
    requires
        0 <= c < 8,
        bit_set(b, c),
    ensures
        b != 0,
{
    let cc = c as u8;
    assert((b >> cc) & 1u8 == 1u8 ==> b != 0) by (bit_vector);
}

/// Draws the glyph's ink in white into an icon `size` pixels square of 4-byte pixels: each
/// inked cell becomes a square of `icon_scale(size)` pixels, the ink's bounding box centred.
pub fn draw_icon_glyph(frame: &mut Vec<u8>, size: usize, glyph: [u8; 8])
    requires
        old(frame)@.len() == size * size * 4,
        !glyph_blank(glyph@),
        icon_glyph_fits(glyph@, size as int),
    ensures
        final(frame)@ == icon_glyph_drawn(old(frame)@, size as int, glyph@),
{
    let ghost g = glyph@;
    let ghost old_px = old(frame)@;
    let ghost si = size as int;
    let (min_col, max_col, min_row, max_row) = ink_bounds(glyph);
    let len = frame.len();
    assert(size * 3 + 20 <= usize::MAX) by (nonlinear_arith)
        requires
            len == size * size * 4,
            len <= usize::MAX,
    ;
    let s0 = (size * 3 + 20) / 40;
    let scale = if s0 < 1 { 1 } else { s0 };
    assert(scale as int == icon_scale(si));
    let ghost sc = scale as int;
    assert((max_col - min_col + 1) * sc <= si && (max_row - min_row + 1) * sc <= si);
    let glyph_width = (max_col - min_col + 1) * scale;
    let glyph_height = (max_row - min_row + 1) * scale;
    let offset_x = (size - glyph_width) / 2;
    let offset_y = (size - glyph_height) / 2;
    let mut row: usize = 0;
    while row < 8
        invariant
            g == glyph@,
            old_px == old(frame)@,
            si == size as int,
            sc == scale as int,
            sc == icon_scale(si),
            1 <= sc,
            len == size * size * 4,
            old_px.len() == len,
            frame@.len() == len,
            ink_cols(g, min_col as int, max_col as int),
            ink_rows(g, min_row as int, max_row as int),
            (min_col as int, max_col as int, min_row as int, max_row as int) == ink_box(g),
            glyph_width == (max_col - min_col + 1) * sc,
            glyph_height == (max_row - min_row + 1) * sc,
            glyph_width <= si,
            glyph_height <= si,
            offset_x == (si - glyph_width) / 2,
            offset_y == (si - glyph_height) / 2,
            row <= 8,
            forall|q: int| 0 <= q < len ==> #[trigger] frame@[q] == if icon_covered(g, si, (q / 4) % si, (q / 4) / si, (row * 8) as nat) {
                255u8 } else { old_px[q] },
        decreases 8 - row,
    {
        let mut col: usize = 0;
        while col < 8
            invariant
                g == glyph@,
                old_px == old(frame)@,
                si == size as int,
                sc == scale as int,
                sc == icon_scale(si),
                1 <= sc,
                len == size * size * 4,
                old_px.len() == len,
                frame@.len() == len,
                ink_cols(g, min_col as int, max_col as int),
                ink_rows(g, min_row as int, max_row as int),
                (min_col as int, max_col as int, min_row as int, max_row as int) == ink_box(g),
                glyph_width == (max_col - min_col + 1) * sc,
                glyph_height == (max_row - min_row + 1) * sc,
                glyph_width <= si,
                glyph_height <= si,
                offset_x == (si - glyph_width) / 2,
                offset_y == (si - glyph_height) / 2,
                row < 8,
                col <= 8,
                forall|q: int| 0 <= q < len ==> #[trigger] frame@[q] == if icon_covered(g, si, (q / 4) % si, (q / 4) / si, (row * 8 + col) as nat) {
                    255u8 } else { old_px[q] },
            decreases 8 - col,
        {
            let ghost k = row * 8 + col;
            assert(k / 8 == row && k % 8 == col);
            if (glyph[row] >> (col as u8)) & 1u8 == 1u8 {
                proof {
                    assert(bit_set(g[row as int], col as int));
                    assert(ink_col(g, col as int));
                    lemma_bit_ink(g[row as int], col as int);
                    assert(min_col <= col <= max_col);
                    assert(min_row <= row <= max_row);
                }
                assert((col - min_col + 1) * sc <= (max_col - min_col + 1) * sc) by (nonlinear_arith)
                    requires
                        col <= max_col,
                        1 <= sc,
                ;
                assert((row - min_row + 1) * sc <= (max_row - min_row + 1) * sc) by (nonlinear_arith)
                    requires
                        row <= max_row,
                        1 <= sc,
                ;
                assert((col - min_col) * sc + sc == (col - min_col + 1) * sc) by (nonlinear_arith);
                assert((row - min_row) * sc + sc == (row - min_row + 1) * sc) by (nonlinear_arith);
                let x0 = offset_x + (col - min_col) * scale;
                let y0 = offset_y + (row - min_row) * scale;
                assert(x0 as int == cell_x(g, si, col as int));
                assert(y0 as int == cell_y(g, si, row as int));
                paint_rect_bytes(frame, size, size, x0, x0 + scale, y0, y0 + scale, (255u8, 255u8));
            }
            col = col + 1;
        }
        row = row + 1;
    }
    assert(frame@ =~= icon_glyph_drawn(old_px, si, g));
}

/// The RGBA background of a mode's icon.
pub open spec fn background_of(mode: Mode) -> Seq<u8> {
    match mode {
        Mode::Normal => seq![30u8, 160u8, 98u8, 255u8],
        Mode::Insert => seq![44u8, 55u8, 72u8, 255u8],
    }
}

/// The letter of a mode.
pub open spec fn label_of_mode(mode: Mode) -> char {
    match mode {
        Mode::Normal => 'N',
        Mode::Insert => 'I',
    }
}

/// Draws the mode icon into a frame of 4-byte pixels `overlay_size` pixels square: the mode's
/// background everywhere, then its letter in white. True when the letter was drawn; it is left
/// out, as the font has no ink for it or it would not fit, only on false.
pub fn draw_overlay(frame: &mut Vec<u8>, mode: Mode, overlay_size: usize) -> (drawn: bool)
    requires
        old(frame)@.len() == overlay_size * overlay_size * 4,
    ensures
        ({
            let bg = filled(old(frame)@, background_of(mode));
            let g = basic_font_glyph(label_of_mode(mode))->0@;
            &&& basic_font_glyph(label_of_mode(mode)) is Some
            &&& drawn == (!glyph_blank(g) && icon_glyph_fits(g, overlay_size as int))
            &&& final(frame)@ == if drawn { icon_glyph_drawn(bg, overlay_size as int, g) } else { bg }
        }),
{
    let rgba = mode.background();
    fill_pixels(frame, rgba);
    let label = mode.label();
    let glyph = match basic_font(label) {
        Some(g) => g,
        None => {
            return false;
        },
    };
    let mut blank = true;
    let mut r: usize = 0;
    while r < 8
        invariant
            r <= 8,
            blank == (forall|j: int| 0 <= j < r ==> glyph@[j] == 0),
        decreases 8 - r,
    {
        if glyph[r] != 0 {
            blank = false;
        }
        r = r + 1;
    }
    if blank {
        return false;
    }
    let (min_col, max_col, min_row, max_row) = ink_bounds(glyph);
    let len = frame.len();
    assert(overlay_size * 3 + 20 <= usize::MAX) by (nonlinear_arith)
        requires
            len == overlay_size * overlay_size * 4,
            len <= usize::MAX,
    ;
    let s0 = (overlay_size * 3 + 20) / 40;
    let scale = if s0 < 1 { 1 } else { s0 };
    let wide = max_col - min_col + 1;
    let tall = max_row - min_row + 1;
    let fits = match (wide.checked_mul(scale), tall.checked_mul(scale)) {
        (Some(gw), Some(gh)) => gw <= overlay_size && gh <= overlay_size,
        _ => false,
    };
    if !fits {
        return false;
    }
    draw_icon_glyph(frame, overlay_size, glyph);
    true
}

} // verus!
