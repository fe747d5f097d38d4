use vstd::prelude::*;

use crate::geom::{tdiv2, half_i32, Rct, MAX_DIM};

verus! {

/// Where a glyph's bitmap is blitted: the top-left pixel of its image.
#[derive(Clone, Copy, PartialEq, Eq, Structural, Debug)]
pub struct GlyphPos {
    pub x: i32,
    pub y: i32,
}

/// The horizontal correction applied when the digit string starts with
/// `'1'`: two and a half times the spacing unit, truncated; zero
/// otherwise.  It compensates for that glyph's narrow visual weight.
pub open spec fn one_adjust_spec(first_is_one: bool, spc: int) -> int {
    if first_is_one {
        5 * spc / 2
    } else {
        0
    }
}

pub fn one_adjust(first_is_one: bool, spc: i32) -> (a: i32)
    requires
        0 <= spc <= MAX_DIM,
    ensures
        a == one_adjust_spec(first_is_one, spc as int),
{
    if first_is_one {
        5 * spc / 2
    } else {
        0
    }
}

/// The digit strings start with `'1'` exactly when their first byte is
/// the ASCII digit one.
pub open spec fn starts_with_one(s: Seq<u8>) -> bool {
    s.len() > 0 && s[0] == 0x31u8
}

pub fn first_byte_is_one(s: &[u8]) -> (b: bool)
    requires
        s@.len() > 0,
    ensures
        b == starts_with_one(s@),
{
    s[0] == 0x31u8
}

/// The horizontal center the glyphs are laid out around: the rectangle's
/// center column shifted left by the `'1'` adjustment.
pub open spec fn centered_x_spec(rect: Rct, adjust: int) -> int {
    rect.x + rect.w as int / 2 - adjust
}

/// Position of a lone glyph: its bitmap centered on the (adjusted)
/// center column and centered vertically in the rectangle.
pub fn single_glyph_pos(rect: &Rct, adjust: i32, gw: u32, gh: u32) -> (p: GlyphPos)
    requires
        rect.bounded(),
        0 <= adjust <= MAX_DIM,
        gw <= MAX_DIM,
        gh <= MAX_DIM,
    ensures
        p.x == centered_x_spec(*rect, adjust as int) - gw as int / 2,
        p.y == rect.y + tdiv2(rect.h - gh),
        adjust == 0 ==> p.x + gw as int / 2 == rect.x + rect.w as int / 2,
{
    let cx: i32 = rect.x + (rect.w / 2) as i32 - adjust;
    let px: i32 = cx - (gw / 2) as i32;
    let py: i32 = rect.y + half_i32(rect.h as i32 - gh as i32);
    GlyphPos { x: px, y: py }
}

/// Position of the left glyph of a pair: its right ink edge (from the
/// glyph metrics `minx`/`maxx`, not the bitmap) sits one spacing unit —
/// two when the `'1'` adjustment is active — left of the center column.
pub fn pair_left_pos(
    rect: &Rct,
    adjust: i32,
    spc: i32,
    minx: i32,
    maxx: i32,
    gh: u32,
) -> (p: GlyphPos)
    requires
        rect.bounded(),
        0 <= adjust <= MAX_DIM,
        0 <= spc <= MAX_DIM,
        -(MAX_DIM as int) <= minx <= MAX_DIM,
        -(MAX_DIM as int) <= maxx <= MAX_DIM,
        gh <= MAX_DIM,
    ensures
        p.x == centered_x_spec(*rect, adjust as int) - maxx + minx - spc - (
        if adjust > 0 {
            spc as int
        } else {
            0
        }),
        p.y == rect.y + tdiv2(rect.h - gh),
{
    let cx: i32 = rect.x + (rect.w / 2) as i32 - adjust;
    let extra: i32 = if adjust > 0 {
        spc
    } else {
        0
    };
    let px: i32 = cx - maxx + minx - spc - extra;
    let py: i32 = rect.y + half_i32(rect.h as i32 - gh as i32);
    GlyphPos { x: px, y: py }
}

/// Position of the right glyph of a pair: its left edge sits half a
/// spacing unit right of the center column.
pub fn pair_right_pos(rect: &Rct, adjust: i32, spc: i32, gh: u32) -> (p: GlyphPos)
    requires
        rect.bounded(),
        0 <= adjust <= MAX_DIM,
        0 <= spc <= MAX_DIM,
        gh <= MAX_DIM,
    ensures
        p.x == centered_x_spec(*rect, adjust as int) + spc as int / 2,
        p.y == rect.y + tdiv2(rect.h - gh),
{
    let cx: i32 = rect.x + (rect.w / 2) as i32 - adjust;
    let px: i32 = cx + spc / 2;
    let py: i32 = rect.y + half_i32(rect.h as i32 - gh as i32);
    GlyphPos { x: px, y: py }
}

/// Position of the AM/PM marker within a panel: inset from the left
/// edge, and `offset` from the top (for AM) or from the bottom of the
/// marker to the panel's bottom (for PM).
pub fn ampm_pos(rect: &Rct, x_inset: i32, offset: i32, marker_h: u32, pm: bool) -> (p: GlyphPos)
    requires
        rect.bounded(),
        0 <= x_inset <= MAX_DIM,
        0 <= offset <= MAX_DIM,
        marker_h <= MAX_DIM,
    ensures
        p.x == rect.x + x_inset,
        p.y == rect.y + (if pm {
            rect.h - offset - marker_h
        } else {
            offset as int
        }),
{
    let py: i32 = if pm {
        rect.y + (rect.h as i32 - offset - marker_h as i32)
    } else {
        rect.y + offset
    };
    GlyphPos { x: rect.x + x_inset, y: py }
}

/// A digit string not starting with `'1'` gets no horizontal
/// correction; one that does is shifted by exactly `5·spc/2`, i.e.
/// two and a half spacing units, truncated.
pub proof fn lemma_one_adjust_difference(spc: int)
    requires
        0 <= spc,
    ensures
        one_adjust_spec(true, spc) - one_adjust_spec(false, spc) == 5 * spc / 2,
{
}

/// A lone glyph with no `'1'` correction is centered exactly: the pixel
/// distance from its left edge to the rectangle's center column equals
/// half its bitmap width, with no rounding slack.
pub proof fn lemma_single_glyph_centered(rect: Rct, gw: int)
    requires
        0 <= gw,
    ensures
        (centered_x_spec(rect, 0) - gw / 2) + gw / 2 == rect.x + rect.w as int / 2,
{
}

} // verus!
