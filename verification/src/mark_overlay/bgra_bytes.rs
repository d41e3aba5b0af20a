//! The mark overlay in premultiplied BGRA bytes (4 bytes per pixel, B G R A).
use crate::glyph::{blit_label_bgra_u8, effective_scale, bytes_letter, bytes_outline};
use crate::mark_overlay::{marks_drawn_bytes, marks_fit};
use crate::grid_overlay::bgra_bytes::clear_bytes;
use vstd::prelude::*;

verus! {

/// Clears a `w` by `h` buffer of 4-byte pixels and draws the glyph of each mark that lies on
/// the monitor, in list order, at glyph scale `scale` (at least 1).
pub fn fill_marks(pixels: &mut Vec<u8>, w: usize, h: usize, marks: &Vec<(char, Option<(usize, usize)>)>, scale: usize)
    requires
        old(pixels)@.len() == w * h * 4,
        marks_fit(marks@, effective_scale(scale) as int),
    ensures
        final(pixels)@ == marks_drawn_bytes(Seq::new(old(pixels)@.len(), |q: int| 0u8), w as int, marks@, effective_scale(scale) as int, bytes_letter(), bytes_outline(), marks@.len()),
{
    clear_bytes(pixels);
    let ghost base = pixels@;
    let mut i: usize = 0;
    while i < marks.len()
        invariant
            base.len() == w * h * 4,
            pixels@.len() == base.len(),
            marks_fit(marks@, effective_scale(scale) as int),
            i <= marks@.len(),
            pixels@ == marks_drawn_bytes(base, w as int, marks@, effective_scale(scale) as int, bytes_letter(), bytes_outline(), i as nat),
        decreases marks@.len() - i,
    {
        let (label, place) = marks[i];
        if let Some((cx, cy)) = place {
            blit_label_bgra_u8(pixels, w, h, cx, cy, label, scale);
        }
        i = i + 1;
    }
}

} // verus!
