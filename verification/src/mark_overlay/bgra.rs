//! The mark overlay in premultiplied BGRA (little-endian `u32` pixels, bytes B G R A).
use crate::glyph::{blit_label_bgra_u32, effective_scale, bgra_letter, bgra_outline};
use crate::mark_overlay::{marks_drawn, marks_fit};
use vstd::prelude::*;

verus! {

/// Draws over a `w` by `h` buffer the glyph of each mark that lies on the monitor, in list
/// order, at glyph scale `scale` (at least 1).
pub fn fill_marks(pixels: &mut Vec<u32>, w: usize, h: usize, marks: &Vec<(char, Option<(usize, usize)>)>, scale: usize)
    requires
        old(pixels)@.len() == w * h,
        marks_fit(marks@, effective_scale(scale) as int),
    ensures
        final(pixels)@ == marks_drawn(old(pixels)@, w as int, marks@, effective_scale(scale) as int, bgra_letter(), bgra_outline(), marks@.len()),
{
    let ghost base = pixels@;
    let mut i: usize = 0;
    while i < marks.len()
        invariant
            base.len() == w * h,
            pixels@.len() == base.len(),
            marks_fit(marks@, effective_scale(scale) as int),
            i <= marks@.len(),
            pixels@ == marks_drawn(base, w as int, marks@, effective_scale(scale) as int, bgra_letter(), bgra_outline(), i as nat),
        decreases marks@.len() - i,
    {
        let (label, place) = marks[i];
        if let Some((cx, cy)) = place {
            blit_label_bgra_u32(pixels, w, h, cx, cy, label, scale);
        }
        i = i + 1;
    }
}

} // verus!
