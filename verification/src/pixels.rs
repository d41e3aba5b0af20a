//! Index arithmetic of row-major pixel buffers.
use vstd::prelude::*;

verus! {

/// Pixel `(x, y)` of a buffer `w` pixels wide lives at `y * w + x`, and that index gives the
/// pixel back.
pub proof fn lemma_pixel_index(x: int, y: int, w: int)
    requires
        0 <= x < w,
        0 <= y,
    ensures
        (y * w + x) % w == x,
        (y * w + x) / w == y,
        0 <= y * w + x,
{
    vstd::arithmetic::div_mod::lemma_fundamental_div_mod_converse(y * w + x, w, y, x);
    vstd::arithmetic::mul::lemma_mul_nonnegative(y, w);
}

/// A pixel inside a `w` by `h` buffer has an index below `w * h`.
pub proof fn lemma_pixel_in_bounds(x: int, y: int, w: int, h: int)
    requires
        0 <= x < w,
        0 <= y < h,
    ensures
        y * w + x < w * h,
        0 <= y * w + x,
{
    vstd::arithmetic::mul::lemma_mul_inequality(y + 1, h, w);
    vstd::arithmetic::mul::lemma_mul_is_distributive_add_other_way(w, y, 1);
    vstd::arithmetic::mul::lemma_mul_nonnegative(y, w);
    assert(h * w == w * h) by (nonlinear_arith);
}

/// Every index of a `w`-wide buffer is `(p / w) * w + p % w`, with `p % w < w`.
pub proof fn lemma_index_split(p: int, w: int)
    requires
        0 <= p,
        0 < w,
    ensures
        p == (p / w) * w + p % w,
        0 <= p % w < w,
        0 <= p / w,
{
    vstd::arithmetic::div_mod::lemma_fundamental_div_mod(p, w);
    vstd::arithmetic::mul::lemma_mul_is_commutative(w, p / w);
    vstd::arithmetic::div_mod::lemma_mod_pos_bound(p, w);
    vstd::arithmetic::div_mod::lemma_div_pos_is_pos(p, w);
}

/// An index below `w * h` lies on one of the `h` rows.
pub proof fn lemma_index_row(p: int, w: int, h: int)
    requires
        0 <= p < w * h,
        0 < w,
    ensures
        p / w < h,
{
    lemma_index_split(p, w);
    if p / w >= h {
        vstd::arithmetic::mul::lemma_mul_inequality(h, p / w, w);
        assert(h * w == w * h) by (nonlinear_arith);
    }
}

/// Distinct pixels have distinct indices.
pub proof fn lemma_index_unique(p: int, q: int, w: int)
    requires
        0 <= p,
        0 <= q,
        0 < w,
        p % w == q % w,
        p / w == q / w,
    ensures
        p == q,
{
    lemma_index_split(p, w);
    lemma_index_split(q, w);
}

} // verus!
