//! Arithmetic of row-major pixel indices.
use vstd::prelude::*;

verus! {

/// A pixel inside a `w * h` grid has its index inside `0 .. w * h`.
pub proof fn lemma_index_inside(w: int, h: int, x: int, y: int)
    by (nonlinear_arith)
    requires
        0 <= x < w,
        0 <= y < h,
    ensures
        0 <= y * w + x < w * h,
        y * w + x + 1 <= w * h,
{
}

/// A row-major index determines its row and its column.
pub proof fn lemma_index_split(w: int, x: int, y: int)
    requires
        0 <= x < w,
    ensures
        (y * w + x) / w == y,
        (y * w + x) % w == x,
{
    vstd::arithmetic::div_mod::lemma_fundamental_div_mod_converse(y * w + x, w, y, x);
}

/// Every index below `w * h` is the index of a pixel inside the grid.
pub proof fn lemma_index_unsplit(w: int, h: int, i: int)
    requires
        0 <= i < w * h,
        0 <= w,
        0 <= h,
    ensures
        0 <= i % w < w,
        0 <= i / w < h,
        (i / w) * w + i % w == i,
{
    assert(w > 0) by (nonlinear_arith)
        requires
            0 <= i < w * h,
            0 <= w,
    ;
    vstd::arithmetic::div_mod::lemma_fundamental_div_mod(i, w);
    vstd::arithmetic::div_mod::lemma_mod_bound(i, w);
    let q = i / w;
    let r = i % w;
    assert(w * q == q * w) by (nonlinear_arith);
    assert(0 <= q < h) by (nonlinear_arith)
        requires
            i == q * w + r,
            0 <= r < w,
            0 <= i < w * h,
    ;
}

/// The first index of the row after `y`.
pub proof fn lemma_next_row(w: int, y: int)
    by (nonlinear_arith)
    ensures
        (y + 1) * w == y * w + w,
{
}

/// The product of two `i32` values fits an `i64` with room to spare.
pub proof fn lemma_mul_i32(a: int, b: int)
    by (nonlinear_arith)
    requires
        -0x8000_0000 <= a < 0x8000_0000,
        -0x8000_0000 <= b < 0x8000_0000,
    ensures
        -0x4000_0000_0000_0000 <= a * b <= 0x4000_0000_0000_0000,
{
}

/// The product of two values that are not negative is not negative, and
/// grows with either.
pub proof fn lemma_mul_nonneg(a: int, b: int, c: int, d: int)
    by (nonlinear_arith)
    requires
        0 <= a <= c,
        0 <= b <= d,
    ensures
        0 <= a * b <= c * d,
{
}

} // verus!
