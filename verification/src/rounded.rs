use vstd::prelude::*;

use crate::geom::{Rct, MAX_DIM};
use crate::surface::PixelBuffer;

verus! {

// The fill derives all of its scan bounds from the target rectangle and
// the corner radius.  With `c` the rectangle and `r` the radius:
// the box's center sits at (`mid_x`, `mid_y`), the straight (un-rounded)
// half-extents are `straight_w` and `straight_h`, and the fill touches
// rows `mid_y ± (straight_h + r)` and columns `mid_x ± (straight_w + r)`.

pub open spec fn half_w(c: Rct) -> int {
    c.w as int / 2 - 1
}

pub open spec fn half_h(c: Rct) -> int {
    c.h as int / 2 - 1
}

pub open spec fn mid_x(c: Rct) -> int {
    c.x + half_w(c)
}

pub open spec fn mid_y(c: Rct) -> int {
    c.y + half_h(c)
}

pub open spec fn straight_w(c: Rct, r: int) -> int {
    half_w(c) - r
}

pub open spec fn straight_h(c: Rct, r: int) -> int {
    half_h(c) - r
}

/// The documented degenerate case: the radius leaves no straight span,
/// and the whole call is a no-op.
pub open spec fn radius_too_large(c: Rct, r: int) -> bool {
    straight_w(c, r) <= 0 || straight_h(c, r) <= 0
}

/// `⌊r / √2⌋`: how far the corner sweep steps along its major axis.
/// Characterized exactly in integers as the largest `k` with
/// `2·k² ≤ r²`; `corner_extent_from` walks candidates downward from `k`.
pub open spec fn corner_extent_from(r: int, k: int) -> int
    decreases k,
{
    if k <= 0 {
        0
    } else if 2 * k * k <= r * r {
        k
    } else {
        corner_extent_from(r, k - 1)
    }
}

pub open spec fn corner_extent(r: int) -> int {
    corner_extent_from(r, r)
}

proof fn lemma_corner_extent_from(r: int, k: int)
    requires
        0 <= k,
        0 <= r,
        r * r < 2 * (k + 1) * (k + 1),
    ensures
        0 <= corner_extent_from(r, k) <= k,
        2 * corner_extent_from(r, k) * corner_extent_from(r, k) <= r * r,
        r * r < 2 * (corner_extent_from(r, k) + 1) * (corner_extent_from(r, k) + 1),
    decreases k,
{
    if k <= 0 {
    } else if 2 * k * k <= r * r {
    } else {
        lemma_corner_extent_from(r, k - 1);
    }
}

/// The characterizing facts of `corner_extent`: it is the largest `k`
/// with `2·k² ≤ r²`, and it stays strictly below a positive `r`.
pub proof fn lemma_corner_extent_props(r: int)
    requires
        0 <= r,
    ensures
        0 <= corner_extent(r) <= r,
        2 * corner_extent(r) * corner_extent(r) <= r * r,
        r * r < 2 * (corner_extent(r) + 1) * (corner_extent(r) + 1),
        r >= 1 ==> corner_extent(r) < r,
{
    assert(r * r < 2 * (r + 1) * (r + 1)) by (nonlinear_arith)
        requires
            0 <= r,
    ;
    lemma_corner_extent_from(r, r);
    if r >= 1 && corner_extent(r) == r {
        assert(false) by (nonlinear_arith)
            requires
                r >= 1,
                2 * r * r <= r * r,
        ;
    }
}

/// Compute `corner_extent(r)` by scanning upward.
#[verifier::loop_isolation(false)]
fn corner_sweep_extent(r: i32) -> (k: i32)
    requires
        0 <= r <= MAX_DIM,
    ensures
        k == corner_extent(r as int),
{
    proof {
        assert(r * r <= 0x10000000) by (nonlinear_arith)
            requires
                0 <= r <= MAX_DIM,
        ;
    }
    let rr: i32 = r * r;
    let mut k: i32 = 0;
    while 2 * (k + 1) * (k + 1) <= rr
        invariant
            0 <= k <= r,
            rr == r * r,
            2 * k * k <= rr,
            2 * (k + 1) * (k + 1) <= 0x30000000,
        decreases r - k,
    {
        proof {
            assert(k + 1 <= r) by (nonlinear_arith)
                requires
                    2 * (k + 1) * (k + 1) <= r * r,
                    0 <= k,
                    0 <= r,
            ;
        }
        k = k + 1;
        proof {
            assert(2 * (k + 1) * (k + 1) <= 0x30000000) by (nonlinear_arith)
                requires
                    0 <= k <= MAX_DIM,
            ;
        }
    }
    proof {
        lemma_corner_extent_props(r as int);
        let ce = corner_extent(r as int);
        assert(k == ce) by (nonlinear_arith)
            requires
                2 * k * k <= r * r,
                r * r < 2 * (k + 1) * (k + 1),
                2 * ce * ce <= r * r,
                r * r < 2 * (ce + 1) * (ce + 1),
                0 <= k,
                0 <= ce,
        ;
    }
    k
}

/// The central cross: every row of the straight vertical span, across the
/// full touched width.
pub open spec fn in_central(c: Rct, r: int, row: int, col: int) -> bool {
    mid_y(c) - straight_h(c, r) <= row <= mid_y(c) + straight_h(c, r)
        && mid_x(c) - straight_w(c, r) - r <= col <= mid_x(c) + straight_w(c, r) + r
}

/// The vertical band around the box's center column: full straight width,
/// extended past the straight rows by the corner sweep's major extent.
pub open spec fn in_column_band(c: Rct, r: int, row: int, col: int) -> bool {
    mid_y(c) - straight_h(c, r) - corner_extent(r) <= row <= mid_y(c) + straight_h(c, r)
        + corner_extent(r) && mid_x(c) - straight_w(c, r) <= col <= mid_x(c) + straight_w(c, r)
}

/// The full-height column band: the straight width across every row the
/// shape spans, from its very top row to its very bottom one.
pub open spec fn in_column_full(c: Rct, r: int, row: int, col: int) -> bool {
    mid_y(c) - straight_h(c, r) - r <= row <= mid_y(c) + straight_h(c, r) + r
        && mid_x(c) - straight_w(c, r) <= col <= mid_x(c) + straight_w(c, r)
}

/// Every pixel the fill may write lies in this box; everything outside it
/// is untouched.
pub open spec fn in_touched(c: Rct, r: int, row: int, col: int) -> bool {
    mid_y(c) - straight_h(c, r) - r <= row <= mid_y(c) + straight_h(c, r) + r
        && mid_x(c) - straight_w(c, r) - r <= col <= mid_x(c) + straight_w(c, r) + r
}

pub open spec fn same_frame(pre: PixelBuffer, post: PixelBuffer) -> bool {
    post.pwidth() == pre.pwidth() && post.pheight() == pre.pheight() && post.ppitch()
        == pre.ppitch()
}

pub open spec fn unchanged_pixels(pre: PixelBuffer, post: PixelBuffer) -> bool {
    forall|row: int, col: int|
        0 <= row < pre.pheight() && 0 <= col < pre.ppitch() ==> post.at(row, col) == pre.at(
            row,
            col,
        )
}

/// What `fill_rounded_box` does to the buffer: nothing when the radius is
/// too large for the rectangle; otherwise it colors the central cross,
/// the center column band — for `r ≥ 2` over the shape's whole height —
/// touches nothing outside the derived scan box, and — the rounding itself — for
/// `r ≥ 1` leaves the rectangle's top-left bounding-box corner pixel as
/// it was.  (The other three bounding-box corners lie outside the scan
/// box altogether, so the untouched-outside clause covers them.)
pub open spec fn rounded_fill_post(
    pre: PixelBuffer,
    post: PixelBuffer,
    c: Rct,
    r: int,
    color: u32,
) -> bool {
    &&& same_frame(pre, post)
    &&& (radius_too_large(c, r) ==> unchanged_pixels(pre, post))
    &&& (!radius_too_large(c, r) ==> {
        &&& (forall|row: int, col: int|
            in_central(c, r, row, col) ==> post.at(row, col) == color)
        &&& (forall|row: int, col: int|
            in_column_band(c, r, row, col) ==> post.at(row, col) == color)
        &&& (r >= 2 ==> forall|row: int, col: int|
            in_column_full(c, r, row, col) ==> post.at(row, col) == color)
        &&& (forall|row: int, col: int|
            0 <= row < pre.pheight() && 0 <= col < pre.ppitch() && !in_touched(c, r, row, col)
                ==> post.at(row, col) == pre.at(row, col))
        &&& (r >= 1 ==> post.at(c.y as int, c.x as int) == pre.at(c.y as int, c.x as int))
    })
}

/// A radius of at least half of either dimension always falls in the
/// degenerate case: the fill is then a no-op and the buffer is unchanged
/// (see the `radius_too_large` clause of `rounded_fill_post`).
pub proof fn lemma_rounded_noop_condition(c: Rct, r: int)
    requires
        0 <= r,
        2 * r >= c.w || 2 * r >= c.h,
    ensures
        radius_too_large(c, r),
{
    assert(c.w as int / 2 <= r || c.h as int / 2 <= r);
}

/// The profile of a drawn rounded box, read off `rounded_fill_post`: the
/// four outermost corner pixels of the bounding box keep their old
/// (background) value, while the pixels where the two midlines meet the
/// bounding box — and, down the whole vertical midline, every pixel of
/// the center column — carry the fill color.
pub proof fn lemma_rounded_box_profile(
    pre: PixelBuffer,
    post: PixelBuffer,
    c: Rct,
    r: int,
    color: u32,
)
    requires
        pre.wf(),
        rounded_fill_post(pre, post, c, r, color),
        !radius_too_large(c, r),
        2 <= r,
        0 <= c.x,
        0 <= c.y,
        c.x + c.w <= pre.pwidth(),
        c.y + c.h <= pre.pheight(),
    ensures
        post.at(c.y as int, c.x as int) == pre.at(c.y as int, c.x as int),
        post.at(c.y as int, c.x + c.w - 1) == pre.at(c.y as int, c.x + c.w - 1),
        post.at(c.y + c.h - 1, c.x as int) == pre.at(c.y + c.h - 1, c.x as int),
        post.at(c.y + c.h - 1, c.x + c.w - 1) == pre.at(c.y + c.h - 1, c.x + c.w - 1),
        post.at(mid_y(c), c.x as int) == color,
        post.at(mid_y(c), c.x + 2 * half_w(c)) == color,
        post.at(c.y as int, mid_x(c)) == color,
        post.at(c.y + 2 * half_h(c), mid_x(c)) == color,
        post.at(mid_y(c), mid_x(c)) == color,
        forall|row: int| c.y <= row <= c.y + 2 * half_h(c) ==> post.at(row, mid_x(c)) == color,
{
    pre.lemma_wf_bounds();
    assert(2 * (c.w as int / 2) <= c.w && 2 * (c.h as int / 2) <= c.h);
    // The right column and bottom row of the bounding box lie outside
    // everything the fill touches.
    assert(!in_touched(c, r, c.y as int, c.x + c.w - 1));
    assert(!in_touched(c, r, c.y + c.h - 1, c.x as int));
    assert(!in_touched(c, r, c.y + c.h - 1, c.x + c.w - 1));
    // The midline ends sit in the colored regions.
    assert(in_central(c, r, mid_y(c), c.x as int));
    assert(in_central(c, r, mid_y(c), c.x + 2 * half_w(c)));
    assert(in_central(c, r, mid_y(c), mid_x(c)));
    assert forall|row: int| c.y <= row <= c.y + 2 * half_h(c) implies post.at(row, mid_x(c))
        == color by {
        assert(in_column_full(c, r, row, mid_x(c)));
    }
}

/// Fill `coords` within `dst` with `color`, clipped to a rounded
/// rectangle of corner radius `r`: a straight central fill plus a
/// midpoint-circle sweep that fills the four corners with horizontal
/// spans.  The caller must place `coords` inside the buffer; a radius too
/// large for the rectangle makes the call a no-op, by design.
#[verifier::loop_isolation(false)]
#[verifier::rlimit(100)]
pub fn fill_rounded_box(dst: &mut PixelBuffer, coords: &Rct, r: i32, color: u32)
    requires
        old(dst).wf(),
        0 <= coords.x,
        0 <= coords.y,
        coords.x + coords.w <= old(dst).pwidth(),
        coords.y + coords.h <= old(dst).pheight(),
        0 <= r <= MAX_DIM,
    ensures
        final(dst).wf(),
        rounded_fill_post(*old(dst), *final(dst), *coords, r as int, color),
{
    let ghost c: Rct = *coords;
    let ghost ri: int = r as int;
    proof {
        old(dst).lemma_wf_bounds();
    }
    let half_w_e: i32 = (coords.w / 2) as i32 - 1;
    let half_h_e: i32 = (coords.h / 2) as i32 - 1;
    let xo: i32 = coords.x + half_w_e;
    let yo: i32 = coords.y + half_h_e;
    let w: i32 = half_w_e - r;
    let h: i32 = half_h_e - r;

    if w <= 0 || h <= 0 {
        return ;
    }
    let sx: i32 = xo - w;
    let ex: i32 = xo + w;
    let sy: i32 = yo - h;
    let ey: i32 = yo + h;

    proof {
        assert(sy - r == c.y);
        assert(sx - r == c.x);
        assert(ey + r == c.y + 2 * half_h(c));
        assert(ex + r == c.x + 2 * half_w(c));
        assert(2 * (c.h as int / 2) <= c.h);
        assert(2 * (c.w as int / 2) <= c.w);
    }

    // Central cross: full touched width over the straight rows.
    let lo: i32 = sx - r;
    let hi: i32 = ex + r;
    let mut row: i32 = sy;
    while row <= ey
        invariant
            sy <= row <= ey + 1,
            dst.wf(),
            same_frame(*old(dst), *dst),
            forall|r2: int, c2: int|
                in_central(c, ri, r2, c2) && r2 < row ==> dst.at(r2, c2) == color,
            forall|r2: int, c2: int|
                0 <= r2 < dst.pheight() && 0 <= c2 < dst.ppitch() && !(in_central(c, ri, r2, c2)
                    && r2 < row) ==> dst.at(r2, c2) == old(dst).at(r2, c2),
        decreases ey + 1 - row,
    {
        dst.fill_row(row as usize, lo as usize, hi as usize, color);
        row = row + 1;
    }

    // Corner sweep: a midpoint-circle walk; at each major step it fills
    // two x-major spans (against the straight rows) and two y-major spans
    // (reaching toward the caps), mirrored about the center.
    let rpsqrt2: i32 = corner_sweep_extent(r);
    proof {
        lemma_corner_extent_props(ri);
    }
    let mut d: i32 = -r;
    let mut x2m1: i32 = -1;
    let mut y: i32 = r;
    let mut x: i32 = 0;
    while x <= rpsqrt2
        invariant
            0 <= x <= rpsqrt2 + 1,
            r - x <= y <= r,
            x2m1 == 2 * x - 1,
            d == x * x + y * y - y - r * r,
            -0x10000000 <= d <= 0x30000000,
            dst.wf(),
            same_frame(*old(dst), *dst),
            forall|r2: int, c2: int| in_central(c, ri, r2, c2) ==> dst.at(r2, c2) == color,
            forall|r2: int, c2: int|
                0 <= r2 < dst.pheight() && 0 <= c2 < dst.ppitch() && !in_touched(c, ri, r2, c2)
                    ==> dst.at(r2, c2) == old(dst).at(r2, c2),
            r >= 1 ==> dst.at(c.y as int, c.x as int) == old(dst).at(c.y as int, c.x as int),
            r >= 1 ==> forall|r2: int, c2: int|
                (sy - x < r2 <= sy || ey <= r2 < ey + x) && sx <= c2 <= ex ==> dst.at(r2, c2)
                    == color,
            r >= 1 && x <= rpsqrt2 ==> d <= -1,
            r >= 2 && x == rpsqrt2 + 1 ==> y <= x,
            r >= 2 && x >= 1 ==> forall|r2: int, c2: int|
                (sy - r <= r2 <= sy - y || ey + y <= r2 <= ey + r) && sx <= c2 <= ex ==> dst.at(
                    r2,
                    c2,
                ) == color,
        decreases rpsqrt2 + 1 - x,
    {
        let ghost x0: int = x as int;
        let ghost y0: int = y as int;
        let ghost d0: int = d as int;
        proof {
            if x == 0 {
                assert(y == r);
                assert(d == -r) by (nonlinear_arith)
                    requires
                        d == x * x + y * y - y - r * r,
                        x == 0,
                        y == r,
                ;
            }
        }
        x2m1 = x2m1 + 2;
        d = d + x2m1;
        if d >= 0 {
            y = y - 1;
            d = d - 2 * y;
        }
        proof {
            // One decrement at most, and the sweep never runs past the
            // diagonal, so `y` stays in range.
            assert(y >= y0 - 1 && y0 >= r - x0);
            assert(rpsqrt2 <= r);
            assert(y >= -1);
            assert(r >= 1 ==> y >= 0) by {
                if r >= 1 {
                    assert(corner_extent(ri) < r);
                    assert(x0 <= rpsqrt2 <= r - 1);
                }
            };
            assert(d == (x0 + 1) * (x0 + 1) + y * y - y - r * r) by (nonlinear_arith)
                requires
                    d0 == x0 * x0 + y0 * y0 - y0 - r * r,
                    (y == y0 && d == d0 + 2 * x0 + 1) || (y == y0 - 1 && d == d0 + 2 * x0 + 1 - 2
                        * (y0 - 1)),
            ;
            assert(-0x10000000 <= d <= 0x30000000) by (nonlinear_arith)
                requires
                    d == (x0 + 1) * (x0 + 1) + y * y - y - r * r,
                    0 <= x0 + 1 <= 16385,
                    -1 <= y <= 16384,
                    0 <= r <= 16384,
            ;
            // Span bounds: every span stays inside the touched box, and
            // none reaches the rectangle's top-left corner pixel.
            assert(c.y <= sy - y <= sy + 1 && sy + 1 <= ey);
            assert(c.y <= sy - x && sy - x <= sy);
            assert(ey + x <= ey + r && ey + y <= ey + r);
            assert(ey + y >= ey - 1 >= sy);
            assert(c.x <= sx - x && ex + x <= ex + r);
            assert(c.x <= sx - y && sx - y <= sx + 1 && ex + y >= ex - 1);
            assert(sx - y <= ex + y && sx - x <= ex + x);
            if r >= 1 {
                assert(x < r);
                assert(sx - x > c.x);
                assert(sy - x > c.y && ey + x > c.y && ey + y > c.y);
            }
            if x == 0 && r >= 2 {
                assert(y == r);
            }
            // Midpoint invariant: the decision value stays negative while
            // the sweep is strictly inside its extent.
            if r >= 1 && x + 1 <= rpsqrt2 {
                if y == y0 {
                    assert(d <= -1);
                } else {
                    assert(d0 <= -1);
                    if y0 >= x + 2 {
                        assert(d <= -1);
                    } else {
                        assert(2 * (x + 1) * (x + 1) <= r * r) by (nonlinear_arith)
                            requires
                                0 <= x + 1 <= corner_extent(ri),
                                2 * corner_extent(ri) * corner_extent(ri) <= r * r,
                                ri == r,
                        ;
                        assert(d <= -1) by (nonlinear_arith)
                            requires
                                d == (x + 1) * (x + 1) + y * y - y - r * r,
                                2 * (x + 1) * (x + 1) <= r * r,
                                0 <= y,
                                y <= x,
                        ;
                    }
                }
            }
            // On the sweep's final step, y lands within one of the
            // extent, which closes the column band over the full height.
            if r >= 2 && x == rpsqrt2 {
                assert(1 <= y0);
                if y == y0 {
                    assert(d <= -1);
                    assert((y - 1) * (y - 1) <= y * y - y) by (nonlinear_arith)
                        requires
                            1 <= y,
                    ;
                    assert(y * y - y < (x + 1) * (x + 1)) by (nonlinear_arith)
                        requires
                            d == (x + 1) * (x + 1) + y * y - y - r * r,
                            d <= -1,
                            r * r < 2 * (x + 1) * (x + 1),
                    ;
                    assert(y <= x + 1) by (nonlinear_arith)
                        requires
                            (y - 1) * (y - 1) < (x + 1) * (x + 1),
                            0 <= y - 1,
                            0 <= x + 1,
                    ;
                } else {
                    assert(d0 <= -1);
                    assert((y0 - 1) * (y0 - 1) <= y0 * y0 - y0) by (nonlinear_arith)
                        requires
                            1 <= y0,
                    ;
                    assert(y0 * y0 - y0 <= x * x + 4 * x) by (nonlinear_arith)
                        requires
                            d0 == x * x + y0 * y0 - y0 - r * r,
                            d0 <= -1,
                            r * r < 2 * (x + 1) * (x + 1),
                    ;
                    assert(y0 <= x + 2) by (nonlinear_arith)
                        requires
                            (y0 - 1) * (y0 - 1) <= x * x + 4 * x,
                            0 <= y0 - 1,
                            0 <= x,
                    ;
                }
            }
        }
        dst.fill_row((sy - y) as usize, (sx - x) as usize, (ex + x) as usize, color);
        dst.fill_row((sy - x) as usize, (sx - y) as usize, (ex + y) as usize, color);
        dst.fill_row((ey + x) as usize, (sx - y) as usize, (ex + y) as usize, color);
        dst.fill_row((ey + y) as usize, (sx - x) as usize, (ex + x) as usize, color);
        x = x + 1;
    }
    proof {
        assert(x == rpsqrt2 + 1);
        assert(w == straight_w(c, ri) && h == straight_h(c, ri));
        assert(!radius_too_large(c, ri));
        assert(mid_y(c) - straight_h(c, ri) == sy && mid_y(c) + straight_h(c, ri) == ey);
        assert(mid_x(c) - straight_w(c, ri) == sx && mid_x(c) + straight_w(c, ri) == ex);
        if r == 0 {
            assert(corner_extent(0) == 0);
        }
        assert forall|r2: int, c2: int| in_column_band(c, ri, r2, c2) implies dst.at(r2, c2)
            == color by {
            if r2 < sy || r2 > ey {
                assert(r >= 1);
                assert(sy - rpsqrt2 <= r2 <= ey + rpsqrt2);
            } else {
                assert(in_central(c, ri, r2, c2));
            }
        }
        if r >= 2 {
            assert(y <= rpsqrt2 + 1);
            assert forall|r2: int, c2: int| in_column_full(c, ri, r2, c2) implies dst.at(r2, c2)
                == color by {
                if r2 < sy - rpsqrt2 {
                    assert(sy - r <= r2 <= sy - y);
                } else if r2 > ey + rpsqrt2 {
                    assert(ey + y <= r2 <= ey + r);
                } else if r2 < sy || r2 > ey {
                    assert(in_column_band(c, ri, r2, c2));
                } else {
                    assert(in_central(c, ri, r2, c2));
                }
            }
        }
    }
}

} // verus!
