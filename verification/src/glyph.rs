//! Rasterization of 8x8 font glyphs, with an outline, into premultiplied pixel buffers. The
//! grid-letter overlay and the mark overlay both draw their labels this way.
use crate::pixels::{lemma_index_row, lemma_index_split, lemma_index_unique, lemma_pixel_in_bounds, lemma_pixel_index};
use font8x8::UnicodeFonts;
use vstd::prelude::*;

verus! {

/// Opacity of the letters (0-255).
pub const LETTER_OVERLAY_ALPHA: u8 = 224;
/// Grey level of the letters (0-255).
pub const LETTER_OVERLAY_BRIGHTNESS: u8 = 255;
/// Width of the letter outlines, in pixels.
pub const LETTER_OVERLAY_OUTLINE_THICKNESS: usize = 1;
/// Opacity of the letter outlines (0-255).
pub const LETTER_OVERLAY_OUTLINE_ALPHA: u8 = 224;
/// Grey level of the letter outlines (0-255).
pub const LETTER_OVERLAY_OUTLINE_BRIGHTNESS: u8 = 0;

/// The bitmap that `font8x8` holds for `ch` in its Basic Latin table: row `r` is byte `r`, and
/// bit `c` of a row is column `c`.
pub uninterp spec fn basic_font_glyph(ch: char) -> Option<[u8; 8]>;

/// `font8x8::BASIC_FONTS.get`: looks `ch` up in the 128-entry Basic Latin table (U+0000 to
/// U+007F) and returns its bitmap. Claimed: the result is the named table entry, and there is
/// one exactly for the characters below U+0080.
#[verifier::external_body]
pub(crate) fn basic_font(ch: char) -> (glyph: Option<[u8; 8]>)
    ensures
        glyph == basic_font_glyph(ch),
        glyph is Some <==> (ch as u32) < 128,
{
    font8x8::BASIC_FONTS.get(ch)
}

/// The 8x8 bitmap drawn for `ch`, when the font has one.
pub fn glyph_for(ch: char) -> (glyph: Option<[u8; 8]>)
    ensures
        glyph == basic_font_glyph(ch),
        glyph is Some <==> (ch as u32) < 128,
{
    basic_font(ch)
}

/// Bit `col` of the byte `row`.
pub open spec fn bit_set(byte: u8, col: int) -> bool {
    ((byte >> (col as u8)) & 1u8) == 1u8
}

/// Offset (`gx`, `gy`) of a glyph scaled by `s` (so `8 * s` pixels square) falls on a set bit.
pub open spec fn glyph_lit(glyph: Seq<u8>, s: int, gx: int, gy: int) -> bool {
    gx >= 0 && gy >= 0 && gy / s < 8 && gx / s < 8 && bit_set(glyph[gy / s], gx / s)
}

/// Offset (`gx`, `gy`) is an outline pixel: not lit itself, but within `t` pixels (in both
/// directions) of a lit pixel.
pub open spec fn glyph_outline(glyph: Seq<u8>, s: int, t: int, gx: int, gy: int) -> bool {
    &&& t != 0
    &&& !glyph_lit(glyph, s, gx, gy)
    &&& exists|nx: int, ny: int|
        gx - t <= nx <= gx + t && gy - t <= ny <= gy + t && #[trigger] glyph_lit(glyph, s, nx, ny)
}

/// True if the glyph pixel at scaled offset (`gx`, `gy`) is lit.
pub fn glyph_px_lit(glyph: [u8; 8], s: isize, gx: isize, gy: isize) -> (r: bool)
    requires
        s > 0,
    ensures
        r == glyph_lit(glyph@, s as int, gx as int, gy as int),
{
    if gx < 0 || gy < 0 {
        return false;
    }
    let col = gx / s;
    let row = gy / s;
    row < 8 && col < 8 && (glyph[row as usize] >> (col as u8)) & 1u8 == 1u8
}

/// True if (`gx`, `gy`) is an outline pixel of the glyph.
pub fn glyph_px_outline(glyph: [u8; 8], s: isize, gx: isize, gy: isize) -> (r: bool)
    requires
        s > 0,
        isize::MIN + 1 <= gx <= isize::MAX - 1,
        isize::MIN + 1 <= gy <= isize::MAX - 1,
    ensures
        r == glyph_outline(glyph@, s as int, LETTER_OVERLAY_OUTLINE_THICKNESS as int, gx as int, gy as int),
{
    let t: isize = 1;
    assert(t == LETTER_OVERLAY_OUTLINE_THICKNESS);
    if glyph_px_lit(glyph, s, gx, gy) {
        return false;
    }
    // Rows and columns are walked by their offset from `gy - t` and `gx - t`, so that no step
    // goes past the last neighbour.
    let mut dy: isize = 0;
    while dy <= 2 * t
        invariant
            s > 0,
            t == 1,
            isize::MIN + 1 <= gx <= isize::MAX - 1,
            isize::MIN + 1 <= gy <= isize::MAX - 1,
            !glyph_lit(glyph@, s as int, gx as int, gy as int),
            0 <= dy <= 2 * t + 1,
            forall|nx: int, my: int|
                gx - t <= nx <= gx + t && gy - t <= my < gy - t + dy ==> !#[trigger] glyph_lit(glyph@, s as int, nx, my),
        decreases 2 * t + 1 - dy,
    {
        let ny = gy - t + dy;
        let mut dx: isize = 0;
        while dx <= 2 * t
            invariant
                s > 0,
                t == 1,
                isize::MIN + 1 <= gx <= isize::MAX - 1,
                isize::MIN + 1 <= gy <= isize::MAX - 1,
                0 <= dy <= 2 * t,
                ny == gy - t + dy,
                0 <= dx <= 2 * t + 1,
                forall|mx: int, my: int|
                    gx - t <= mx <= gx + t && gy - t <= my < ny ==> !#[trigger] glyph_lit(glyph@, s as int, mx, my),
                forall|mx: int| gx - t <= mx < gx - t + dx ==> !#[trigger] glyph_lit(glyph@, s as int, mx, ny as int),
                !glyph_lit(glyph@, s as int, gx as int, gy as int),
            decreases 2 * t + 1 - dx,
        {
            let nx = gx - t + dx;
            if glyph_px_lit(glyph, s, nx, ny) {
                assert(glyph_lit(glyph@, s as int, nx as int, ny as int));
                return true;
            }
            dx = dx + 1;
        }
        dy = dy + 1;
    }
    false
}

/// Top-left corner of the box of a glyph centred on `c`: `c - (4s + t)`, or 0 when that would
/// be negative.
pub open spec fn glyph_box_origin(c: int, s: int, t: int) -> int {
    if c >= 4 * s + t { c - (4 * s + t) } else { 0 }
}

/// The value of pixel (`x`, `y`) after drawing the glyph whose box starts at (`ox`, `oy`):
/// the letter color on lit pixels, the outline color on outline pixels, unchanged elsewhere.
pub open spec fn blit_pixel<C>(old: C, x: int, y: int, ox: int, oy: int, s: int, glyph: Seq<u8>, color: C, outline: C) -> C {
    let t = LETTER_OVERLAY_OUTLINE_THICKNESS as int;
    if ox <= x < ox + 8 * s + 2 * t && oy <= y < oy + 8 * s + 2 * t {
        if glyph_lit(glyph, s, x - ox - t, y - oy - t) {
            color
        } else if glyph_outline(glyph, s, t, x - ox - t, y - oy - t) {
            outline
        } else {
            old
        }
    } else {
        old
    }
}

/// Pixel `p` of a `w`-wide buffer `px` after drawing the glyph whose box starts at (`ox`, `oy`).
pub open spec fn blit_at<C>(px: Seq<C>, w: int, p: int, ox: int, oy: int, s: int, glyph: Seq<u8>, color: C, outline: C) -> C {
    blit_pixel(px[p], p % w, p / w, ox, oy, s, glyph, color, outline)
}

/// A glyph of scale `scale` centred on (`cx`, `cy`) stays within the machine's integers.
pub open spec fn glyph_fits(cx: int, cy: int, scale: int) -> bool {
    &&& 1 <= scale
    &&& cx + 8 * scale + 4 <= usize::MAX
    &&& cy + 8 * scale + 4 <= usize::MAX
    &&& 8 * scale + 4 <= isize::MAX
}

/// The premultiplied channel value of grey level `brightness` at opacity `alpha`.
pub open spec fn premultiplied(brightness: u8, alpha: u8) -> u32 {
    (((brightness as u32) * (alpha as u32)) / 255) as u32
}

/// Grey level `brightness` premultiplied by opacity `alpha`.
pub fn premultiply(brightness: u8, alpha: u8) -> (pm: u32)
    ensures
        pm == premultiplied(brightness, alpha),
        pm <= 255,
{
    let b = brightness as u32;
    let a = alpha as u32;
    assert(b * a <= 255 * 255) by (nonlinear_arith)
        requires
            b <= 255,
            a <= 255,
    ;
    assert((b * a) / 255 <= 255) by (nonlinear_arith)
        requires
            b * a <= 255 * 255,
    ;
    (b * a) / 255
}

/// A packed pixel whose bytes, from the lowest, are `pm pm pm alpha`.
pub open spec fn grey_pixel(pm: u32, alpha: u8) -> u32 {
    pm | (pm << 8u32) | (pm << 16u32) | ((alpha as u32) << 24u32)
}

fn blit_glyph_u32(
    pixels: &mut Vec<u32>,
    w: usize,
    h: usize,
    cx: usize,
    cy: usize,
    glyph: [u8; 8],
    scale: usize,
    color: u32,
    outline: u32,
)
    requires
        old(pixels)@.len() == w * h,
        glyph_fits(cx as int, cy as int, scale as int),
    ensures
        final(pixels)@.len() == old(pixels)@.len(),
        forall|p: int| 0 <= p < old(pixels)@.len() ==> #[trigger] final(pixels)@[p] == blit_pixel(
            old(pixels)@[p],
            p % (w as int),
            p / (w as int),
            glyph_box_origin(cx as int, scale as int, LETTER_OVERLAY_OUTLINE_THICKNESS as int),
            glyph_box_origin(cy as int, scale as int, LETTER_OVERLAY_OUTLINE_THICKNESS as int),
            scale as int,
            glyph@,
            color,
            outline,
        ),
{
    let t: usize = LETTER_OVERLAY_OUTLINE_THICKNESS;
    let s = scale;
    let ox = cx.saturating_sub(4 * s + t);
    let oy = cy.saturating_sub(4 * s + t);
    let side = 8 * s + 2 * t;
    let n = pixels.len();
    let ghost old_px = old(pixels)@;
    let ghost wi = w as int;
    if w == 0 {
        return;
    }
    let mut gy: usize = 0;
    while gy < side
        invariant
            side == 8 * s + 2 * t,
            t == LETTER_OVERLAY_OUTLINE_THICKNESS,
            glyph_fits(cx as int, cy as int, s as int),
            ox == glyph_box_origin(cx as int, s as int, t as int),
            oy == glyph_box_origin(cy as int, s as int, t as int),
            w > 0,
            wi == w as int,
            old_px.len() == w * h,
            n == old_px.len(),
            pixels@.len() == old_px.len(),
            gy <= side,
            forall|p: int| 0 <= p < old_px.len() ==> #[trigger] pixels@[p] == if p / wi < oy + gy { blit_at(old_px, wi, p, ox as int, oy as int, s as int, glyph@, color, outline) } else { old_px[p] },
        decreases side - gy,
    {
        proof {
            assert forall|p: int| 0 <= p < old_px.len() implies #[trigger] pixels@[p] == if p / wi < oy + gy || (p / wi
                == oy + gy && p % wi < ox + 0) { blit_at(old_px, wi, p, ox as int, oy as int, s as int, glyph@, color, outline) } else { old_px[p] } by {
                lemma_index_split(p, wi);
                if p / wi == oy + gy && p % wi < ox {
                    assert(!(ox <= p % wi < ox + 8 * s + 2 * t));
                    assert(blit_at(old_px, wi, p, ox as int, oy as int, s as int, glyph@, color, outline) == old_px[p]);
                }
            }
        }
        let mut gx: usize = 0;
        while gx < side
            invariant
                side == 8 * s + 2 * t,
                t == LETTER_OVERLAY_OUTLINE_THICKNESS,
                glyph_fits(cx as int, cy as int, s as int),
                ox == glyph_box_origin(cx as int, s as int, t as int),
                oy == glyph_box_origin(cy as int, s as int, t as int),
                w > 0,
                wi == w as int,
                old_px.len() == w * h,
                n == old_px.len(),
                pixels@.len() == old_px.len(),
                gy < side,
                gx <= side,
                forall|p: int| 0 <= p < old_px.len() ==> #[trigger] pixels@[p] == if p / wi < oy + gy || (p / wi == oy + gy
                    && p % wi < ox + gx) { blit_at(old_px, wi, p, ox as int, oy as int, s as int, glyph@, color, outline) } else { old_px[p] },
            decreases side - gx,
        {
            let bx = gx as isize - t as isize;
            let by = gy as isize - t as isize;
            let paint = if glyph_px_lit(glyph, s as isize, bx, by) {
                Some(color)
            } else if glyph_px_outline(glyph, s as isize, bx, by) {
                Some(outline)
            } else {
                None
            };
            let px = ox + gx;
            let py = oy + gy;
            let ghost target = py * wi + px;
            if px < w && py < h {
                proof {
                    lemma_pixel_in_bounds(px as int, py as int, w as int, h as int);
                }
                if let Some(c) = paint {
                    pixels.set(py * w + px, c);
                }
            }
            proof {
                assert forall|p: int| 0 <= p < old_px.len() implies #[trigger] pixels@[p] == if p / wi < oy + gy || (p / wi
                    == oy + gy && p % wi < ox + gx + 1) { blit_at(old_px, wi, p, ox as int, oy as int, s as int, glyph@, color, outline) } else { old_px[p] } by {
                    lemma_index_split(p, wi);
                    lemma_index_row(p, wi, h as int);
                    if p / wi == py && p % wi == px {
                        lemma_pixel_index(px as int, py as int, wi);
                        lemma_index_unique(p, target, wi);
                        assert(blit_at(old_px, wi, p, ox as int, oy as int, s as int, glyph@, color, outline) == (match paint {
                            Some(c) => c,
                            None => old_px[p],
                        }));
                    } else if px < w && py < h {
                        lemma_pixel_index(px as int, py as int, wi);
                        assert(p != target);
                    }
                }
            }
            gx = gx + 1;
        }
        proof {
            assert forall|p: int| 0 <= p < old_px.len() implies #[trigger] pixels@[p] == if p / wi < oy + gy + 1 {
                blit_at(old_px, wi, p, ox as int, oy as int, s as int, glyph@, color, outline) } else { old_px[p] } by {
                lemma_index_split(p, wi);
                if p / wi == oy + gy && p % wi >= ox + side {
                    assert(!(ox <= p % wi < ox + 8 * s + 2 * t));
                    assert(blit_at(old_px, wi, p, ox as int, oy as int, s as int, glyph@, color, outline) == old_px[p]);
                }
            }
        }
        gy = gy + 1;
    }
    proof {
        assert forall|p: int| 0 <= p < old_px.len() implies #[trigger] pixels@[p] == blit_at(old_px, wi, p, ox as int, oy as int, s as int, glyph@, color, outline) by {
            lemma_index_split(p, wi);
        }
    }
}


/// The scale actually used for a requested glyph scale: at least 1.
pub open spec fn effective_scale(scale: usize) -> usize {
    if scale == 0 { 1 } else { scale }
}

/// A packed pixel whose bytes, from the highest, are `alpha pm pm pm` (0xAARRGGBB).
pub open spec fn argb_grey_pixel(pm: u32, alpha: u8) -> u32 {
    ((alpha as u32) << 24u32) | (pm << 16u32) | (pm << 8u32) | pm
}

/// A `w`-wide buffer of packed pixels after drawing the label `ch` centred on (`cx`, `cy`) at
/// scale `s` with the packed colors `letter` and `outline`: unchanged when the font has no glyph
/// for `ch`, else each pixel as `blit_at` gives it.
pub open spec fn draw_label(before: Seq<u32>, w: int, cx: int, cy: int, ch: char, s: int, letter: u32, outline: u32) -> Seq<u32> {
    match basic_font_glyph(ch) {
        None => before,
        Some(glyph) => Seq::new(
            before.len(),
            |p: int|
                blit_at(
                    before,
                    w,
                    p,
                    glyph_box_origin(cx, s, LETTER_OVERLAY_OUTLINE_THICKNESS as int),
                    glyph_box_origin(cy, s, LETTER_OVERLAY_OUTLINE_THICKNESS as int),
                    s,
                    glyph@,
                    letter,
                    outline,
                ),
        ),
    }
}

/// The packed letter color of a premultiplied BGRA (little-endian `u32`) buffer.
pub open spec fn bgra_letter() -> u32 {
    grey_pixel(premultiplied(LETTER_OVERLAY_BRIGHTNESS, LETTER_OVERLAY_ALPHA), LETTER_OVERLAY_ALPHA)
}

/// The packed outline color of a premultiplied BGRA (little-endian `u32`) buffer.
pub open spec fn bgra_outline() -> u32 {
    grey_pixel(premultiplied(LETTER_OVERLAY_OUTLINE_BRIGHTNESS, LETTER_OVERLAY_OUTLINE_ALPHA), LETTER_OVERLAY_OUTLINE_ALPHA)
}

/// The packed letter color of a premultiplied ARGB (0xAARRGGBB) buffer.
pub open spec fn argb_letter() -> u32 {
    argb_grey_pixel(premultiplied(LETTER_OVERLAY_BRIGHTNESS, LETTER_OVERLAY_ALPHA), LETTER_OVERLAY_ALPHA)
}

/// The packed outline color of a premultiplied ARGB (0xAARRGGBB) buffer.
pub open spec fn argb_outline() -> u32 {
    argb_grey_pixel(premultiplied(LETTER_OVERLAY_OUTLINE_BRIGHTNESS, LETTER_OVERLAY_OUTLINE_ALPHA), LETTER_OVERLAY_OUTLINE_ALPHA)
}

/// Draws the label `ch` centred on (`cx`, `cy`) into a premultiplied BGRA buffer of packed
/// little-endian `u32` pixels (bytes B G R A), `w` by `h`, at glyph scale `scale` (at least 1).
pub fn blit_label_bgra_u32(pixels: &mut Vec<u32>, w: usize, h: usize, cx: usize, cy: usize, ch: char, scale: usize)
    requires
        old(pixels)@.len() == w * h,
        glyph_fits(cx as int, cy as int, effective_scale(scale) as int),
    ensures
        final(pixels)@ == draw_label(old(pixels)@, w as int, cx as int, cy as int, ch, effective_scale(scale) as int, bgra_letter(), bgra_outline()),
{
    let glyph = match basic_font(ch) {
        Some(g) => g,
        None => return,
    };
    let pm: u32 = premultiply(LETTER_OVERLAY_BRIGHTNESS, LETTER_OVERLAY_ALPHA);
    let pixel: u32 = pm | (pm << 8u32) | (pm << 16u32) | ((LETTER_OVERLAY_ALPHA as u32) << 24u32);
    let opm: u32 = premultiply(LETTER_OVERLAY_OUTLINE_BRIGHTNESS, LETTER_OVERLAY_OUTLINE_ALPHA);
    let outline: u32 = opm | (opm << 8u32) | (opm << 16u32) | ((LETTER_OVERLAY_OUTLINE_ALPHA as u32) << 24u32);
    let s: usize = if scale == 0 { 1 } else { scale };
    blit_glyph_u32(pixels, w, h, cx, cy, glyph, s, pixel, outline);
    assert(pixels@ =~= draw_label(old(pixels)@, w as int, cx as int, cy as int, ch, s as int, pixel, outline));
}

/// Draws the label `ch` centred on (`cx`, `cy`) into a premultiplied ARGB buffer of packed
/// native-endian `u32` pixels (0xAARRGGBB), `w` by `h`, at glyph scale `scale` (at least 1).
pub fn blit_label_argb_u32(pixels: &mut Vec<u32>, w: usize, h: usize, cx: usize, cy: usize, ch: char, scale: usize)
    requires
        old(pixels)@.len() == w * h,
        glyph_fits(cx as int, cy as int, effective_scale(scale) as int),
    ensures
        final(pixels)@ == draw_label(old(pixels)@, w as int, cx as int, cy as int, ch, effective_scale(scale) as int, argb_letter(), argb_outline()),
{
    let glyph = match basic_font(ch) {
        Some(g) => g,
        None => return,
    };
    let pm: u32 = premultiply(LETTER_OVERLAY_BRIGHTNESS, LETTER_OVERLAY_ALPHA);
    let pixel: u32 = ((LETTER_OVERLAY_ALPHA as u32) << 24u32) | (pm << 16u32) | (pm << 8u32) | pm;
    let opm: u32 = premultiply(LETTER_OVERLAY_OUTLINE_BRIGHTNESS, LETTER_OVERLAY_OUTLINE_ALPHA);
    let outline: u32 = ((LETTER_OVERLAY_OUTLINE_ALPHA as u32) << 24u32) | (opm << 16u32) | (opm << 8u32) | opm;
    let s: usize = if scale == 0 { 1 } else { scale };
    blit_glyph_u32(pixels, w, h, cx, cy, glyph, s, pixel, outline);
    assert(pixels@ =~= draw_label(old(pixels)@, w as int, cx as int, cy as int, ch, s as int, pixel, outline));
}


/// Byte `q` of a `w`-wide buffer of 4-byte pixels (B G R A) after drawing the glyph whose box
/// starts at (`ox`, `oy`): where the glyph paints the pixel `q / 4` with the (grey level,
/// opacity) pair `letter` or `outline`, the opacity in the last byte of the pixel and the grey
/// level in the others; the old byte elsewhere.
pub open spec fn blit_byte_at(px: Seq<u8>, w: int, q: int, ox: int, oy: int, s: int, glyph: Seq<u8>, letter: (u8, u8), outline: (u8, u8)) -> u8 {
    let p = q / 4;
    match blit_pixel(None, p % w, p / w, ox, oy, s, glyph, Some(letter), Some(outline)) {
        Some(ga) => if q % 4 == 3 { ga.1 } else { ga.0 },
        None => px[q],
    }
}

fn blit_glyph_u8(
    pixels: &mut Vec<u8>,
    w: usize,
    h: usize,
    cx: usize,
    cy: usize,
    glyph: [u8; 8],
    scale: usize,
    letter: (u8, u8),
    outline: (u8, u8),
)
    requires
        old(pixels)@.len() == w * h * 4,
        glyph_fits(cx as int, cy as int, scale as int),
    ensures
        final(pixels)@.len() == old(pixels)@.len(),
        forall|q: int| 0 <= q < old(pixels)@.len() ==> #[trigger] final(pixels)@[q] == blit_byte_at(
            old(pixels)@,
            w as int,
            q,
            glyph_box_origin(cx as int, scale as int, LETTER_OVERLAY_OUTLINE_THICKNESS as int),
            glyph_box_origin(cy as int, scale as int, LETTER_OVERLAY_OUTLINE_THICKNESS as int),
            scale as int,
            glyph@,
            letter,
            outline,
        ),
{
    let t: usize = LETTER_OVERLAY_OUTLINE_THICKNESS;
    let s = scale;
    let ox = cx.saturating_sub(4 * s + t);
    let oy = cy.saturating_sub(4 * s + t);
    let side = 8 * s + 2 * t;
    let ghost old_px = old(pixels)@;
    let ghost wi = w as int;
    if w == 0 {
        return;
    }
    let mut gy: usize = 0;
    while gy < side
        invariant
            side == 8 * s + 2 * t,
            t == LETTER_OVERLAY_OUTLINE_THICKNESS,
            glyph_fits(cx as int, cy as int, s as int),
            ox == glyph_box_origin(cx as int, s as int, t as int),
            oy == glyph_box_origin(cy as int, s as int, t as int),
            w > 0,
            wi == w as int,
            old_px.len() == w * h * 4,
            pixels@.len() == old_px.len(),
            gy <= side,
            forall|q: int| 0 <= q < old_px.len() ==> #[trigger] pixels@[q] == if (q / 4) / wi < oy + gy {
                blit_byte_at(old_px, wi, q, ox as int, oy as int, s as int, glyph@, letter, outline) } else { old_px[q] },
        decreases side - gy,
    {
        proof {
            assert forall|q: int| 0 <= q < old_px.len() implies #[trigger] pixels@[q] == if (q / 4) / wi < oy + gy || ((q / 4) / wi
                == oy + gy && (q / 4) % wi < ox + 0) { blit_byte_at(old_px, wi, q, ox as int, oy as int, s as int, glyph@, letter, outline) } else { old_px[q] } by {
                lemma_index_split(q / 4, wi);
            }
        }
        let mut gx: usize = 0;
        while gx < side
            invariant
                side == 8 * s + 2 * t,
                t == LETTER_OVERLAY_OUTLINE_THICKNESS,
                glyph_fits(cx as int, cy as int, s as int),
                ox == glyph_box_origin(cx as int, s as int, t as int),
                oy == glyph_box_origin(cy as int, s as int, t as int),
                w > 0,
                wi == w as int,
                old_px.len() == w * h * 4,
                pixels@.len() == old_px.len(),
                gy < side,
                gx <= side,
                forall|q: int| 0 <= q < old_px.len() ==> #[trigger] pixels@[q] == if (q / 4) / wi < oy + gy || ((q / 4) / wi == oy + gy
                    && (q / 4) % wi < ox + gx) { blit_byte_at(old_px, wi, q, ox as int, oy as int, s as int, glyph@, letter, outline) } else { old_px[q] },
            decreases side - gx,
        {
            let bx = gx as isize - t as isize;
            let by = gy as isize - t as isize;
            let paint = if glyph_px_lit(glyph, s as isize, bx, by) {
                Some(letter)
            } else if glyph_px_outline(glyph, s as isize, bx, by) {
                Some(outline)
            } else {
                None
            };
            let px = ox + gx;
            let py = oy + gy;
            let ghost target = py * wi + px;
            if px < w && py < h {
                proof {
                    lemma_pixel_in_bounds(px as int, py as int, w as int, h as int);
                }
                let n = pixels.len();
                assert((py * w + px) * 4 + 3 < n) by (nonlinear_arith)
                    requires
                        py * w + px < w * h,
                        n == w * h * 4,
                ;
                if let Some(ga) = paint {
                    let i = (py * w + px) * 4;
                    pixels.set(i, ga.0);
                    pixels.set(i + 1, ga.0);
                    pixels.set(i + 2, ga.0);
                    pixels.set(i + 3, ga.1);
                }
            }
            proof {
                assert forall|q: int| 0 <= q < old_px.len() implies #[trigger] pixels@[q] == if (q / 4) / wi < oy + gy || ((q / 4) / wi
                    == oy + gy && (q / 4) % wi < ox + gx + 1) { blit_byte_at(old_px, wi, q, ox as int, oy as int, s as int, glyph@, letter, outline) } else { old_px[q] } by {
                    let p = q / 4;
                    lemma_index_split(p, wi);
                    lemma_index_row(p, wi, h as int);
                    if p / wi == py && p % wi == px {
                        lemma_pixel_index(px as int, py as int, wi);
                        lemma_index_unique(p, target, wi);
                        assert(blit_pixel(None, p % wi, p / wi, ox as int, oy as int, s as int, glyph@, Some(letter), Some(outline)) == paint);
                    } else if px < w && py < h {
                        lemma_pixel_index(px as int, py as int, wi);
                        assert(p != target);
                    }
                }
            }
            gx = gx + 1;
        }
        proof {
            assert forall|q: int| 0 <= q < old_px.len() implies #[trigger] pixels@[q] == if (q / 4) / wi < oy + gy + 1 {
                blit_byte_at(old_px, wi, q, ox as int, oy as int, s as int, glyph@, letter, outline) } else { old_px[q] } by {
                lemma_index_split(q / 4, wi);
            }
        }
        gy = gy + 1;
    }
    proof {
        assert forall|q: int| 0 <= q < old_px.len() implies #[trigger] pixels@[q] == blit_byte_at(old_px, wi, q, ox as int, oy as int, s as int, glyph@, letter, outline) by {
            lemma_index_split(q / 4, wi);
        }
    }
}

/// A `w`-wide buffer of 4-byte pixels after drawing the label `ch` centred on (`cx`, `cy`) at
/// scale `s`: unchanged when the font has no glyph for `ch`, else each byte as `blit_byte_at`
/// gives it.
pub open spec fn draw_label_bytes(before: Seq<u8>, w: int, cx: int, cy: int, ch: char, s: int, letter: (u8, u8), outline: (u8, u8)) -> Seq<u8> {
    match basic_font_glyph(ch) {
        None => before,
        Some(glyph) => Seq::new(
            before.len(),
            |q: int|
                blit_byte_at(
                    before,
                    w,
                    q,
                    glyph_box_origin(cx, s, LETTER_OVERLAY_OUTLINE_THICKNESS as int),
                    glyph_box_origin(cy, s, LETTER_OVERLAY_OUTLINE_THICKNESS as int),
                    s,
                    glyph@,
                    letter,
                    outline,
                ),
        ),
    }
}

/// The (grey level, opacity) of the letters in a 4-byte-per-pixel buffer.
pub open spec fn bytes_letter() -> (u8, u8) {
    (premultiplied(LETTER_OVERLAY_BRIGHTNESS, LETTER_OVERLAY_ALPHA) as u8, LETTER_OVERLAY_ALPHA)
}

/// The (grey level, opacity) of the letter outlines in a 4-byte-per-pixel buffer.
pub open spec fn bytes_outline() -> (u8, u8) {
    (premultiplied(LETTER_OVERLAY_OUTLINE_BRIGHTNESS, LETTER_OVERLAY_OUTLINE_ALPHA) as u8, LETTER_OVERLAY_OUTLINE_ALPHA)
}

/// Draws the label `ch` centred on (`cx`, `cy`) into a premultiplied buffer of 4-byte pixels
/// (bytes B G R A), `w` by `h`, at glyph scale `scale` (at least 1).
pub fn blit_label_bgra_u8(pixels: &mut Vec<u8>, w: usize, h: usize, cx: usize, cy: usize, ch: char, scale: usize)
    requires
        old(pixels)@.len() == w * h * 4,
        glyph_fits(cx as int, cy as int, effective_scale(scale) as int),
    ensures
        final(pixels)@ == draw_label_bytes(old(pixels)@, w as int, cx as int, cy as int, ch, effective_scale(scale) as int, bytes_letter(), bytes_outline()),
{
    let glyph = match basic_font(ch) {
        Some(g) => g,
        None => return,
    };
    let pm = premultiply(LETTER_OVERLAY_BRIGHTNESS, LETTER_OVERLAY_ALPHA) as u8;
    let opm = premultiply(LETTER_OVERLAY_OUTLINE_BRIGHTNESS, LETTER_OVERLAY_OUTLINE_ALPHA) as u8;
    let s: usize = if scale == 0 { 1 } else { scale };
    blit_glyph_u8(pixels, w, h, cx, cy, glyph, s, (pm, LETTER_OVERLAY_ALPHA), (opm, LETTER_OVERLAY_OUTLINE_ALPHA));
    assert(pixels@ =~= draw_label_bytes(old(pixels)@, w as int, cx as int, cy as int, ch, s as int, (pm, LETTER_OVERLAY_ALPHA), (opm, LETTER_OVERLAY_OUTLINE_ALPHA)));
}

} // verus!
