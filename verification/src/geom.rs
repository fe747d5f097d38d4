use vstd::prelude::*;

verus! {

/// Largest pixel extent (width, height, radius, glyph size) the renderer
/// accepts; keeps every coordinate computation well inside `i32`.
pub const MAX_DIM: u32 = 16384;

/// Largest magnitude allowed for a pixel coordinate.
pub const MAX_COORD: i32 = 1048576;

/// An axis-aligned rectangle in pixel coordinates: origin `(x, y)`,
/// extent `w` by `h`, mirroring the windowing layer's convention.
#[derive(Clone, Copy, PartialEq, Eq, Structural, Debug)]
pub struct Rct {
    pub x: i32,
    pub y: i32,
    pub w: u32,
    pub h: u32,
}

impl Rct {
    /// The rectangle's coordinates and extents are small enough for the
    /// renderer's integer arithmetic.
    pub open spec fn bounded(self) -> bool {
        -(MAX_COORD as int) <= self.x <= MAX_COORD as int
            && -(MAX_COORD as int) <= self.y <= MAX_COORD as int
            && self.w <= MAX_DIM
            && self.h <= MAX_DIM
    }

    pub fn new(x: i32, y: i32, w: u32, h: u32) -> (r: Rct)
        ensures
            r.x == x && r.y == y && r.w == w && r.h == h,
    {
        Rct { x, y, w, h }
    }
}

/// Halving that truncates toward zero, as Rust's `/ 2` does on `i32`;
/// ghost division would round toward negative infinity instead.
pub open spec fn tdiv2(a: int) -> int {
    if a >= 0 {
        a / 2
    } else {
        -((-a) / 2)
    }
}

/// Halve an `i32` with truncation toward zero.
pub fn half_i32(a: i32) -> (r: i32)
    requires
        -(MAX_COORD as int) * 4 <= a <= (MAX_COORD as int) * 4,
    ensures
        r == tdiv2(a as int),
{
    if a >= 0 {
        a / 2
    } else {
        -((-a) / 2)
    }
}

} // verus!
