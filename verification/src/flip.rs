use vstd::prelude::*;

use vstd::arithmetic::div_mod::{lemma_div_by_multiple, lemma_div_is_ordered};
use crate::geom::{tdiv2, half_i32, Rct, MAX_DIM};

verus! {

/// Step count of a full animated transition.
pub const FULL_STEPS: i32 = 100;

/// Step count used for an instant settle: a single terminal frame.
pub const SETTLE_STEPS: i32 = 20;

/// Wall-clock length of a full transition, in milliseconds.
pub const FULL_ANIMATION_MS: u64 = 260;

pub open spec fn halfsteps_of(maxsteps: int) -> int {
    maxsteps / 2
}

/// A frame belongs to the upper half of the flip while the old card is
/// still folding away.
pub open spec fn is_upper(maxsteps: int, step: int) -> bool {
    step + 1 <= halfsteps_of(maxsteps)
}

/// The gray level of the moving flap's digits: it ramps linearly from
/// full intensity down to zero across the upper half's steps, then from
/// zero back up to full across the lower half's.
pub open spec fn gray_spec(maxsteps: int, step: int) -> int {
    if is_upper(maxsteps, step) {
        0xb7 - 0xb7 * step / (halfsteps_of(maxsteps) - 1)
    } else {
        0xb7 * (step - halfsteps_of(maxsteps) + 1) / halfsteps_of(maxsteps)
    }
}

/// Numerator of the flap's vertical scale: it shrinks from the full
/// denominator down to zero across the upper half, then grows from one
/// denominator-th back to full across the lower half.
pub open spec fn scale_num_spec(maxsteps: int, step: int) -> int {
    if is_upper(maxsteps, step) {
        halfsteps_of(maxsteps) - 1 - step
    } else {
        step - halfsteps_of(maxsteps) + 1
    }
}

/// Denominator of the flap's vertical scale.
pub open spec fn scale_den_spec(maxsteps: int, step: int) -> int {
    if is_upper(maxsteps, step) {
        halfsteps_of(maxsteps) - 1
    } else {
        halfsteps_of(maxsteps)
    }
}

/// Everything frame `step` of `maxsteps` needs besides geometry: which
/// half is moving, whose digits ride on the flap, the flap's digit gray,
/// and the flap's vertical scale as an exact rational.
pub struct FlipFrame {
    pub upperhalf: bool,
    pub show_previous: bool,
    pub gray: u8,
    pub scale_num: i32,
    pub scale_den: i32,
}

/// Compute one frame of the flip transition.  The flap shows the old
/// digits while in the upper half and the new digits in the lower half.
pub fn flip_frame(maxsteps: i32, step: i32) -> (f: FlipFrame)
    requires
        4 <= maxsteps <= 100000,
        maxsteps % 2 == 0,
        0 <= step < maxsteps,
    ensures
        f.upperhalf == is_upper(maxsteps as int, step as int),
        f.show_previous == f.upperhalf,
        f.gray == gray_spec(maxsteps as int, step as int),
        0 <= f.gray <= 0xb7,
        f.scale_num == scale_num_spec(maxsteps as int, step as int),
        f.scale_den == scale_den_spec(maxsteps as int, step as int),
        0 <= f.scale_num <= f.scale_den,
        1 <= f.scale_den,
{
    let halfsteps: i32 = maxsteps / 2;
    let upperhalf: bool = step + 1 <= halfsteps;
    let gray: i32 = if upperhalf {
        let den: i32 = halfsteps - 1;
        let q: i32 = (0xb7 * step) / den;
        proof {
            lemma_div_is_ordered(0xb7 * step, 0xb7 * den, den as int);
            lemma_div_by_multiple(0xb7, den as int);
            assert(0xb7 * den == den * 0xb7) by (nonlinear_arith);
        }
        0xb7 - q
    } else {
        let den: i32 = halfsteps;
        let num: i32 = step - halfsteps + 1;
        let q: i32 = (0xb7 * num) / den;
        proof {
            lemma_div_is_ordered(0xb7 * num, 0xb7 * den, den as int);
            lemma_div_by_multiple(0xb7, den as int);
            assert(0xb7 * den == den * 0xb7) by (nonlinear_arith);
        }
        q
    };
    let (scale_num, scale_den): (i32, i32) = if upperhalf {
        (halfsteps - 1 - step, halfsteps - 1)
    } else {
        (step - halfsteps + 1, halfsteps)
    };
    FlipFrame {
        upperhalf,
        show_previous: upperhalf,
        gray: gray as u8,
        scale_num,
        scale_den,
    }
}

/// The frame index reached after `elapsed_ms` of a transition paced to
/// `duration_ms`: the last frame index (99) scaled by the elapsed share.
pub fn animation_frame_index(elapsed_ms: u64, duration_ms: u64) -> (f: i32)
    requires
        1 <= duration_ms <= 1000000,
        elapsed_ms <= duration_ms,
    ensures
        f == 99 * elapsed_ms / duration_ms as int,
        0 <= f <= 99,
{
    let n: u64 = 99 * elapsed_ms;
    let f: u64 = n / duration_ms;
    proof {
        lemma_div_is_ordered(99 * elapsed_ms, 99 * duration_ms, duration_ms as int);
        lemma_div_by_multiple(99, duration_ms as int);
        assert(99 * duration_ms == duration_ms * 99) by (nonlinear_arith);
    }
    f as i32
}

/// The static upper half of a panel, where the new digits lie beneath
/// the moving flap.
pub fn top_half_rect(bg: &Rct) -> (r: Rct)
    ensures
        r.x == bg.x,
        r.y == bg.y,
        r.w == bg.w,
        r.h == bg.h / 2,
{
    Rct { x: bg.x, y: bg.y, w: bg.w, h: bg.h / 2 }
}

/// The half of the scaled flap image that is composed this frame: its
/// top half while the flip is in the upper phase, its bottom half after.
pub fn flap_src_rect(scaled_w: u32, scaled_h: u32, upperhalf: bool) -> (r: Rct)
    requires
        scaled_w <= MAX_DIM,
        scaled_h <= MAX_DIM,
    ensures
        r.x == 0,
        r.y == (if upperhalf {
            0
        } else {
            scaled_h as int / 2
        }),
        r.w == scaled_w,
        r.h == scaled_h / 2,
{
    let y: i32 = if upperhalf {
        0
    } else {
        (scaled_h / 2) as i32
    };
    Rct { x: 0, y, w: scaled_w, h: scaled_h / 2 }
}

/// Where that half lands in the destination: vertically centered in the
/// panel while the flap shrinks in the upper phase, flush below the
/// panel's midline while it grows in the lower phase.
pub fn flap_dst_rect(bg: &Rct, scaled_w: u32, scaled_h: u32, upperhalf: bool) -> (r: Rct)
    requires
        bg.bounded(),
        scaled_w <= MAX_DIM,
        scaled_h <= MAX_DIM,
    ensures
        r.x == bg.x,
        r.y == bg.y + (if upperhalf {
            tdiv2(bg.h - scaled_h)
        } else {
            bg.h as int / 2
        }),
        r.w == scaled_w,
        r.h == scaled_h / 2,
{
    let dy: i32 = if upperhalf {
        half_i32(bg.h as i32 - scaled_h as i32)
    } else {
        (bg.h / 2) as i32
    };
    Rct { x: bg.x, y: bg.y + dy, w: scaled_w, h: scaled_h / 2 }
}

/// The two one-line fills of the card seam across the panel's vertical
/// midpoint: a `line_h`-tall band centered on the midline, and a
/// single-pixel line just below it.
pub fn seam_rects(bg: &Rct, line_h: u32) -> (r: (Rct, Rct))
    requires
        bg.bounded(),
        line_h <= MAX_DIM,
    ensures
        r.0.x == bg.x && r.0.w == bg.w && r.0.h == line_h,
        r.0.y == bg.y + tdiv2(bg.h - line_h),
        r.1.x == bg.x && r.1.w == bg.w && r.1.h == 1,
        r.1.y == r.0.y + line_h,
{
    let y0: i32 = bg.y + half_i32(bg.h as i32 - line_h as i32);
    let first = Rct { x: bg.x, y: y0, w: bg.w, h: line_h };
    let second = Rct { x: bg.x, y: y0 + line_h as i32, w: bg.w, h: 1 };
    (first, second)
}

/// At frame 0 the flip is in its upper half, the flap carries the old
/// digits at full intensity, and its scale is exactly one.
pub proof fn lemma_flip_initial_frame(maxsteps: int)
    requires
        4 <= maxsteps,
        maxsteps % 2 == 0,
    ensures
        is_upper(maxsteps, 0),
        gray_spec(maxsteps, 0) == 0xb7,
        scale_num_spec(maxsteps, 0) == scale_den_spec(maxsteps, 0),
{
    vstd::arithmetic::div_mod::lemma_basic_div(0, halfsteps_of(maxsteps) - 1);
}

/// At the fold: the last upper frame squeezes the flap to scale zero;
/// the first lower frame switches to the new digits at the smallest
/// positive scale.
pub proof fn lemma_flip_fold_point(maxsteps: int)
    requires
        4 <= maxsteps,
        maxsteps % 2 == 0,
    ensures
        is_upper(maxsteps, halfsteps_of(maxsteps) - 1),
        scale_num_spec(maxsteps, halfsteps_of(maxsteps) - 1) == 0,
        !is_upper(maxsteps, halfsteps_of(maxsteps)),
        scale_num_spec(maxsteps, halfsteps_of(maxsteps)) == 1,
        scale_den_spec(maxsteps, halfsteps_of(maxsteps)) == halfsteps_of(maxsteps),
{
}

/// At the final frame the flap shows the new digits at full intensity
/// and full scale.
pub proof fn lemma_flip_final_frame(maxsteps: int)
    requires
        4 <= maxsteps,
        maxsteps % 2 == 0,
    ensures
        !is_upper(maxsteps, maxsteps - 1),
        gray_spec(maxsteps, maxsteps - 1) == 0xb7,
        scale_num_spec(maxsteps, maxsteps - 1) == scale_den_spec(maxsteps, maxsteps - 1),
{
    let hs = halfsteps_of(maxsteps);
    assert(maxsteps == 2 * hs);
    assert(maxsteps - 1 - hs + 1 == hs);
    lemma_div_by_multiple(0xb7, hs);
    assert(0xb7 * hs == hs * 0xb7) by (nonlinear_arith);
}

/// The flap gray is monotonic within each half of the transition: it
/// never brightens while the old card folds away, and never dims while
/// the new card settles.
pub proof fn lemma_flip_gray_monotone(maxsteps: int, s1: int, s2: int)
    requires
        4 <= maxsteps,
        maxsteps % 2 == 0,
        0 <= s1 <= s2 < maxsteps,
    ensures
        is_upper(maxsteps, s2) ==> gray_spec(maxsteps, s2) <= gray_spec(maxsteps, s1),
        !is_upper(maxsteps, s1) ==> gray_spec(maxsteps, s1) <= gray_spec(maxsteps, s2),
{
    let hs = halfsteps_of(maxsteps);
    if is_upper(maxsteps, s2) {
        lemma_div_is_ordered(0xb7 * s1, 0xb7 * s2, hs - 1);
    }
    if !is_upper(maxsteps, s1) {
        lemma_div_is_ordered(0xb7 * (s1 - hs + 1), 0xb7 * (s2 - hs + 1), hs);
    }
}

/// The flap's vertical scale is monotonic within each half: it shrinks
/// through the upper half and grows through the lower half.
pub proof fn lemma_flip_scale_monotone(maxsteps: int, s1: int, s2: int)
    requires
        4 <= maxsteps,
        maxsteps % 2 == 0,
        0 <= s1 <= s2 < maxsteps,
    ensures
        is_upper(maxsteps, s2) ==> scale_num_spec(maxsteps, s2) <= scale_num_spec(maxsteps, s1)
            && scale_den_spec(maxsteps, s1) == scale_den_spec(maxsteps, s2),
        !is_upper(maxsteps, s1) ==> scale_num_spec(maxsteps, s1) <= scale_num_spec(maxsteps, s2)
            && scale_den_spec(maxsteps, s1) == scale_den_spec(maxsteps, s2),
{
}

} // verus!
