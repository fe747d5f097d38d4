use vstd::prelude::*;

verus! {

/// A color with 8-bit red, green, blue and alpha channels.
#[derive(Clone, Copy, PartialEq, Eq, Structural, Debug)]
pub struct Rgba {
    pub r: u8,
    pub g: u8,
    pub b: u8,
    pub a: u8,
}

/// The packed 32-bit pixel value of a color, as `PixelBuffer` stores it:
/// red in the low byte, then green, blue and alpha.
pub open spec fn pack_rgba_spec(c: Rgba) -> int {
    c.r + 256 * c.g + 65536 * c.b + 16777216 * c.a
}

/// Pack a color into the 32-bit pixel layout of `PixelBuffer`.
pub fn pack_rgba(c: Rgba) -> (p: u32)
    ensures
        p == pack_rgba_spec(c),
{
    c.r as u32 + 256 * (c.g as u32) + 65536 * (c.b as u32) + 16777216 * (c.a as u32)
}

/// The gray used for the digit glyphs at full intensity.
pub fn font_color() -> (c: Rgba)
    ensures
        c == (Rgba { r: 0xb7, g: 0xb7, b: 0xb7, a: 0xff }),
{
    Rgba { r: 0xb7, g: 0xb7, b: 0xb7, a: 0xff }
}

/// A gray ramp value applied to all three channels, full alpha; the flap
/// during a flip transition is drawn with `gray_color(gray)`.
pub fn gray_color(v: u8) -> (c: Rgba)
    ensures
        c == (Rgba { r: v, g: v, b: v, a: 0xff }),
{
    Rgba { r: v, g: v, b: v, a: 0xff }
}

/// The near-black fill of the card backgrounds.
pub fn background_color() -> (c: Rgba)
    ensures
        c == (Rgba { r: 0x0f, g: 0x0f, b: 0x0f, a: 0xff }),
{
    Rgba { r: 0x0f, g: 0x0f, b: 0x0f, a: 0xff }
}

/// The two colors of the seam drawn across a panel's vertical midpoint:
/// a black line and, one line below, a dark gray one.
pub fn seam_colors() -> (c: (Rgba, Rgba))
    ensures
        c.0 == (Rgba { r: 0, g: 0, b: 0, a: 0xff }),
        c.1 == (Rgba { r: 0x1a, g: 0x1a, b: 0x1a, a: 0xff }),
{
    (Rgba { r: 0, g: 0, b: 0, a: 0xff }, Rgba { r: 0x1a, g: 0x1a, b: 0x1a, a: 0xff })
}

} // verus!
