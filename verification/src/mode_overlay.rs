//! The mode line: a thin strip along one edge of the monitor in the color of the mode.
use crate::state::Mode;
use vstd::prelude::*;

verus! {

/// The monitor edge the mode line runs along.
#[derive(Clone, Copy, Debug, PartialEq, Eq, Structural)]
pub enum ModeOverlayPos {
    Top,
    Right,
    Left,
    Bottom,
}

/// Where the mode line is drawn.
pub const MODE_OVERLAY_POSITION: ModeOverlayPos = ModeOverlayPos::Bottom;
/// Thickness of the mode line, in pixels.
pub const MODE_OVERLAY_THICKNESS: u32 = 3;

impl ModeOverlayPos {
    /// Lines along the top or bottom edge are horizontal and span the monitor's width; the
    /// others span its height.
    pub fn is_horizontal(&self) -> (r: bool)
        ensures
            r == (*self == ModeOverlayPos::Top || *self == ModeOverlayPos::Bottom),
    {
        match self {
            ModeOverlayPos::Top | ModeOverlayPos::Bottom => true,
            _ => false,
        }
    }
}

/// The size in pixels (width, height) of a mode line `extent` pixels long and `thickness`
/// pixels thick at position `pos`; neither side is ever 0.
pub fn line_physical_size(pos: ModeOverlayPos, extent: u32, thickness: u32) -> (size: (u32, u32))
    ensures
        size == (if pos == ModeOverlayPos::Top || pos == ModeOverlayPos::Bottom {
            (if extent == 0 { 1u32 } else { extent }, if thickness == 0 { 1u32 } else { thickness })
        } else {
            (if thickness == 0 { 1u32 } else { thickness }, if extent == 0 { 1u32 } else { extent })
        }),
{
    let thickness = if thickness == 0 { 1 } else { thickness };
    let extent = if extent == 0 { 1 } else { extent };
    if pos.is_horizontal() {
        (extent, thickness)
    } else {
        (thickness, extent)
    }
}

/// The packed 0RGB pixel (red in bits 16-23, green in 8-15, blue in 0-7) of the mode's color.
pub open spec fn mode_line_rgb(mode: Mode) -> u32 {
    match mode {
        Mode::Normal => ((40u32 << 16u32) | (150u32 << 8u32) | 230u32),
        Mode::Insert => ((230u32 << 16u32) | (150u32 << 8u32) | 40u32),
    }
}

/// The packed 0RGB pixel of the mode line.
pub fn mode_line_pixel(mode: Mode) -> (pixel: u32)
    ensures
        pixel == mode_line_rgb(mode),
{
    let rgba = mode.color();
    let r = rgba[0];
    let g = rgba[1];
    let b = rgba[2];
    ((r as u32) << 16u32) | ((g as u32) << 8u32) | (b as u32)
}

/// Paints the first `pixel_count` pixels of the buffer (or all of it, if it is shorter) with
/// `pixel`: the whole mode line is one flat color.
pub fn fill_mode_line(buffer: &mut Vec<u32>, pixel_count: usize, pixel: u32)
    ensures
        final(buffer)@.len() == old(buffer)@.len(),
        forall|i: int| 0 <= i < old(buffer)@.len() ==> #[trigger] final(buffer)@[i] == if i < pixel_count { pixel } else { old(buffer)@[i] },
{
    let n = if pixel_count < buffer.len() { pixel_count } else { buffer.len() };
    let mut i: usize = 0;
    while i < n
        invariant
            n <= old(buffer)@.len(),
            n <= pixel_count,
            n == pixel_count || n == old(buffer)@.len(),
            buffer@.len() == old(buffer)@.len(),
            i <= n,
            forall|j: int| 0 <= j < old(buffer)@.len() ==> #[trigger] buffer@[j] == if j < i { pixel } else { old(buffer)@[j] },
        decreases n - i,
    {
        buffer.set(i, pixel);
        i = i + 1;
    }
}

} // verus!
