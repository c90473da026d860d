//! The mathematical model of rectangular block copies between two pixel
//! planes of identical dimensions, stored flat in row-major, top-to-bottom
//! order.

use crate::Rect;
use vstd::arithmetic::div_mod::{
    lemma_fundamental_div_mod, lemma_fundamental_div_mod_converse, lemma_mod_bound,
};
use vstd::prelude::*;

verus! {

/// Whether the pixel at column `x`, row `y` lies inside rectangle `r`.
pub open spec fn in_rect(r: Rect, x: int, y: int) -> bool {
    r.x <= x < r.x + r.width && r.y <= y < r.y + r.height
}

/// One rectangular block copy, no scaling and no filtering: every pixel of
/// `dst` whose coordinates lie inside `r` is replaced by the pixel of `src`
/// at the same flat position; every other pixel of `dst` is untouched.
/// `w` is the width of both planes.
pub open spec fn blit_rect(dst: Seq<u32>, src: Seq<u32>, w: int, r: Rect) -> Seq<u32> {
    Seq::new(dst.len(), |i: int| if in_rect(r, i % w, i / w) { src[i] } else { dst[i] })
}

/// The first `n` rectangles of `rects`, copied in order from `src` onto `dst`.
pub open spec fn apply_damage(
    dst: Seq<u32>,
    src: Seq<u32>,
    w: int,
    rects: Seq<Rect>,
    n: int,
) -> Seq<u32>
    decreases n,
{
    if n <= 0 {
        dst
    } else {
        blit_rect(apply_damage(dst, src, w, rects, n - 1), src, w, rects[n - 1])
    }
}

/// The first `n` rectangles of `rects` all lie in the signed 32-bit domain.
pub open spec fn rects_in_range(rects: Seq<Rect>, n: int) -> bool {
    forall|i: int| 0 <= i < n ==> crate::rect_in_range(#[trigger] rects[i])
}

/// An all-zero plane of `n` pixels.
pub open spec fn zero_seq(n: int) -> Seq<u32> {
    Seq::new(n as nat, |i: int| 0u32)
}

/// Column `x` of row `y` of a plane `w` wide and `h` high sits at flat index
/// `y * w + x`, which recovers the coordinates by division and remainder.
pub proof fn lemma_coords_to_index(x: int, y: int, w: int, h: int)
    requires
        0 <= x < w,
        0 <= y < h,
    ensures
        0 <= y * w + x < w * h,
        (y * w + x) % w == x,
        (y * w + x) / w == y,
{
    assert(0 <= y * w + x < w * h) by (nonlinear_arith)
        requires
            0 <= x < w,
            0 <= y < h,
    ;
    lemma_fundamental_div_mod_converse(y * w + x, w, y, x);
}

/// A flat index `i` of a plane `w` wide and `h` high decomposes into the
/// coordinates `(i % w, i / w)`, which lie within the plane.
pub proof fn lemma_index_to_coords(i: int, w: int, h: int)
    requires
        w >= 1,
        0 <= i < w * h,
    ensures
        0 <= i % w < w,
        0 <= i / w < h,
        i == (i / w) * w + (i % w),
{
    lemma_fundamental_div_mod(i, w);
    lemma_mod_bound(i, w);
    assert(w * (i / w) == (i / w) * w) by (nonlinear_arith);
    assert(i / w < h) by (nonlinear_arith)
        requires
            w >= 1,
            0 <= i < w * h,
            i == w * (i / w) + (i % w),
            0 <= i % w < w,
    ;
}

/// A block copy of the whole plane replaces the destination by the source.
pub proof fn lemma_blit_full(dst: Seq<u32>, src: Seq<u32>, w: int, h: int, r: Rect)
    requires
        dst.len() == w * h,
        src.len() == w * h,
        w >= 1,
        h >= 1,
        r.x == 0,
        r.y == 0,
        r.width == w,
        r.height == h,
    ensures
        blit_rect(dst, src, w, r) == src,
{
    let b = blit_rect(dst, src, w, r);
    assert forall|i: int| 0 <= i < b.len() implies b[i] == src[i] by {
        lemma_index_to_coords(i, w, h);
    };
    assert(b =~= src);
}

} // verus!
