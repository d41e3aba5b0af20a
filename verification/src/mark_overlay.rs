//! Layout of the mark overlay: the glyph of each set mark, in label order, drawn at the mark's
//! position, one submodule per pixel format.
use crate::glyph::{draw_label, draw_label_bytes};
use crate::keys::{key_label, label_of, mark_key, mark_key_at, MARK_COUNT};
use vstd::prelude::*;

pub mod argb;
pub mod bgra;
pub mod bgra_bytes;

verus! {

/// A mark to draw: the label of its key and its position.
#[derive(Clone, Copy, Debug)]
pub struct MarkGlyph<P> {
    pub label: char,
    pub position: P,
}

/// The mark slot whose label comes `j`-th in label order: the `0` key's slot, then the slots
/// of `1` to `9`.
pub open spec fn slot_in_label_order(j: int) -> int {
    if j == 0 { 9 } else { j - 1 }
}

/// The glyphs of the set marks among the first `j` in label order.
pub open spec fn glyphs_upto<P>(marks: Seq<Option<P>>, j: nat) -> Seq<MarkGlyph<P>>
    decreases j,
{
    if j == 0 {
        Seq::empty()
    } else {
        let prev = glyphs_upto(marks, (j - 1) as nat);
        let slot = slot_in_label_order(j - 1);
        match marks[slot] {
            Some(p) => match label_of(mark_key(slot)) {
                Some(c) => prev.push(MarkGlyph { label: c, position: p }),
                None => prev,
            },
            None => prev,
        }
    }
}

/// The glyph list of the marks (`marks[i]` is the position stored under the `i`-th mark key):
/// each set mark as its key's label at its position, sorted by label so that two lists compare
/// equal exactly when they show the same marks.
pub fn mark_glyphs<P: Copy>(marks: &Vec<Option<P>>) -> (glyphs: Vec<MarkGlyph<P>>)
    requires
        marks@.len() == MARK_COUNT,
    ensures
        glyphs@ == glyphs_upto(marks@, MARK_COUNT as nat),
{
    let mut glyphs: Vec<MarkGlyph<P>> = Vec::new();
    let mut j: usize = 0;
    while j < MARK_COUNT
        invariant
            marks@.len() == MARK_COUNT,
            j <= MARK_COUNT,
            glyphs@ == glyphs_upto(marks@, j as nat),
        decreases MARK_COUNT - j,
    {
        let slot: usize = if j == 0 { 9 } else { j - 1 };
        if let Some(p) = marks[slot] {
            if let Some(c) = key_label(mark_key_at(slot)) {
                glyphs.push(MarkGlyph { label: c, position: p });
            }
        }
        j = j + 1;
    }
    glyphs
}

/// The label of the `j`-th mark in label order is the digit `j`.
proof fn lemma_label_in_order(j: int)
    requires
        0 <= j < MARK_COUNT,
    ensures
        label_of(mark_key(slot_in_label_order(j))) is Some,
        label_of(mark_key(slot_in_label_order(j)))->0 as u32 == '0' as u32 + j,
{
    if j == 0 {
    } else if j == 1 {
    } else if j == 2 {
    } else if j == 3 {
    } else if j == 4 {
    } else if j == 5 {
    } else if j == 6 {
    } else if j == 7 {
    } else if j == 8 {
    } else {
    }
}

/// The glyphs among the first `j` in label order are labelled with digits below `j`, in
/// strictly increasing order.
proof fn lemma_glyph_labels<P>(marks: Seq<Option<P>>, j: nat)
    requires
        marks.len() == MARK_COUNT,
        j <= MARK_COUNT,
    ensures
        forall|i: int| 0 <= i < glyphs_upto(marks, j).len() ==> ((#[trigger] glyphs_upto(marks, j)[i]).label as u32) < ('0' as u32) + j,
        forall|i: int, k: int| 0 <= i < k < glyphs_upto(marks, j).len() ==>
            ((#[trigger] glyphs_upto(marks, j)[i]).label as u32) < ((#[trigger] glyphs_upto(marks, j)[k]).label as u32),
    decreases j,
{
    if j > 0 {
        lemma_glyph_labels(marks, (j - 1) as nat);
        lemma_label_in_order(j - 1);
        let prev = glyphs_upto(marks, (j - 1) as nat);
        let cur = glyphs_upto(marks, j);
        let slot = slot_in_label_order(j - 1);
        if let Some(p) = marks[slot] {
            let c = label_of(mark_key(slot))->0;
            assert(cur == prev.push(MarkGlyph { label: c, position: p }));
            assert forall|i: int| 0 <= i < cur.len() implies ((#[trigger] cur[i]).label as u32) < ('0' as u32) + j by {
                if i < prev.len() {
                    assert(cur[i] == prev[i]);
                }
            }
            assert forall|i: int, k: int| 0 <= i < k < cur.len() implies ((#[trigger] cur[i]).label as u32) < ((#[trigger] cur[k]).label as u32) by {
                assert(cur[i] == prev[i]);
                if k < prev.len() {
                    assert(cur[k] == prev[k]);
                }
            }
        } else {
            assert(cur == prev);
        }
    }
}

/// The glyph list of the marks is sorted by label, with no label twice.
pub proof fn law_mark_glyphs_sorted<P>(marks: Seq<Option<P>>)
    requires
        marks.len() == MARK_COUNT,
    ensures
        forall|i: int, k: int| 0 <= i < k < glyphs_upto(marks, MARK_COUNT as nat).len() ==>
            ((#[trigger] glyphs_upto(marks, MARK_COUNT as nat)[i]).label as u32) < ((#[trigger] glyphs_upto(marks, MARK_COUNT as nat)[k]).label as u32),
{
    lemma_glyph_labels(marks, MARK_COUNT as nat);
}

/// A `w`-wide buffer of packed pixels after drawing, over `before`, the first `k` of the marks
/// (label, pixel position if the mark lies on this monitor) at glyph scale `s`.
pub open spec fn marks_drawn(before: Seq<u32>, w: int, marks: Seq<(char, Option<(usize, usize)>)>, s: int, letter: u32, outline: u32, k: nat) -> Seq<u32>
    decreases k,
{
    if k == 0 {
        before
    } else {
        let prev = marks_drawn(before, w, marks, s, letter, outline, (k - 1) as nat);
        match marks[k - 1].1 {
            Some(c) => draw_label(prev, w, c.0 as int, c.1 as int, marks[k - 1].0, s, letter, outline),
            None => prev,
        }
    }
}

/// As `marks_drawn`, on a buffer of 4-byte pixels.
pub open spec fn marks_drawn_bytes(before: Seq<u8>, w: int, marks: Seq<(char, Option<(usize, usize)>)>, s: int, letter: (u8, u8), outline: (u8, u8), k: nat) -> Seq<u8>
    decreases k,
{
    if k == 0 {
        before
    } else {
        let prev = marks_drawn_bytes(before, w, marks, s, letter, outline, (k - 1) as nat);
        match marks[k - 1].1 {
            Some(c) => draw_label_bytes(prev, w, c.0 as int, c.1 as int, marks[k - 1].0, s, letter, outline),
            None => prev,
        }
    }
}

/// Every mark that lies on the monitor can be drawn at glyph scale `s`.
pub open spec fn marks_fit(marks: Seq<(char, Option<(usize, usize)>)>, s: int) -> bool {
    forall|i: int| 0 <= i < marks.len() ==> ((#[trigger] marks[i]).1 matches Some(c) ==> crate::glyph::glyph_fits(c.0 as int, c.1 as int, s))
}

} // verus!
