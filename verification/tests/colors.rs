use gluqlo::color::{background_color, font_color, gray_color, pack_rgba, seam_colors, Rgba};

#[test]
fn packing_is_little_endian_rgba() {
    let c = Rgba { r: 0x12, g: 0x34, b: 0x56, a: 0x78 };
    assert_eq!(pack_rgba(c), 0x7856_3412);
    assert_eq!(pack_rgba(Rgba { r: 0xff, g: 0, b: 0, a: 0 }), 0xff);
    assert_eq!(pack_rgba(Rgba { r: 0, g: 0, b: 0, a: 0xff }), 0xff00_0000);
}

#[test]
fn palette_values() {
    assert_eq!(font_color(), Rgba { r: 0xb7, g: 0xb7, b: 0xb7, a: 0xff });
    assert_eq!(background_color(), Rgba { r: 0x0f, g: 0x0f, b: 0x0f, a: 0xff });
    let (black, dark) = seam_colors();
    assert_eq!(black, Rgba { r: 0, g: 0, b: 0, a: 0xff });
    assert_eq!(dark, Rgba { r: 0x1a, g: 0x1a, b: 0x1a, a: 0xff });
    assert_eq!(gray_color(0x2b), Rgba { r: 0x2b, g: 0x2b, b: 0x2b, a: 0xff });
}
