//! The mark overlay in premultiplied ARGB (`u32` pixels, 0xAARRGGBB).
use crate::glyph::{blit_label_argb_u32, effective_scale, argb_letter, argb_outline};
use crate::mark_overlay::{marks_drawn, marks_fit};
use crate::grid_overlay::{cleared, clear_pixels};
use vstd::prelude::*;

verus! {

/// Clears a `w` by `h` buffer and draws the glyph of each mark that lies on the monitor, in
/// list order, at glyph scale `scale` (at least 1).
pub fn fill_marks(pixels: &mut Vec<u32>, w: usize, h: usize, marks: &Vec<(char, Option<(usize, usize)>)>, scale: usize)
    requires
        old(pixels)@.len() == w * h,
        marks_fit(marks@, effective_scale(scale) as int),
    ensures
        final(pixels)@ == marks_drawn(cleared(old(pixels)@.len()), w as int, marks@, effective_scale(scale) as int, argb_letter(), argb_outline(), marks@.len()),
{
    clear_pixels(pixels);
    let ghost base = pixels@;
    let mut i: usize = 0;
    while i < marks.len()
        invariant
            base.len() == w * h,
            pixels@.len() == base.len(),
            marks_fit(marks@, effective_scale(scale) as int),
            i <= marks@.len(),
            pixels@ == marks_drawn(base, w as int, marks@, effective_scale(scale) as int, argb_letter(), argb_outline(), i as nat),
        decreases marks@.len() - i,
    {
        let (label, place) = marks[i];
        if let Some((cx, cy)) = place {
            blit_label_argb_u32(pixels, w, h, cx, cy, label, scale);
        }
        i = i + 1;
    }
}

} // verus!
