use gluqlo::geom::Rct;
use gluqlo::textlayout::{
    ampm_pos, first_byte_is_one, one_adjust, pair_left_pos, pair_right_pos, single_glyph_pos,
};

#[test]
fn one_adjust_is_two_and_a_half_spacings() {
    // The '1' correction is exactly 2.5 x spacing (truncated) more than
    // the correction for any other leading digit.
    assert_eq!(one_adjust(true, 10), 25);
    assert_eq!(one_adjust(false, 10), 0);
    assert_eq!(one_adjust(true, 7) - one_adjust(false, 7), 17);
    assert_eq!(one_adjust(true, 0), 0);
}

#[test]
fn leading_one_detection() {
    assert!(first_byte_is_one(b"12"));
    assert!(!first_byte_is_one(b"21"));
    assert!(!first_byte_is_one(b"-1"));
}

#[test]
fn single_glyph_centered_exactly() {
    let rect = Rct::new(100, 50, 200, 80);
    let p = single_glyph_pos(&rect, 0, 40, 60);
    // glyph.x + glyph.width/2 equals the rect's center column exactly.
    assert_eq!(p.x + 40 / 2, 100 + 200 / 2);
    assert_eq!(p.x, 180);
    assert_eq!(p.y, 50 + (80 - 60) / 2);
}

#[test]
fn single_glyph_with_one_adjustment_shifts_left() {
    let rect = Rct::new(0, 0, 100, 100);
    let spc = 4;
    let plain = single_glyph_pos(&rect, one_adjust(false, spc), 20, 20);
    let one = single_glyph_pos(&rect, one_adjust(true, spc), 20, 20);
    assert_eq!(plain.x - one.x, 10);
}

#[test]
fn pair_positions() {
    let rect = Rct::new(0, 0, 100, 100);
    let left = pair_left_pos(&rect, 5, 4, 2, 30, 50);
    // center 45; left ink edge placed spacing (+ extra spacing, since
    // the '1' adjustment is active) left of it.
    assert_eq!(left.x, 45 - 30 + 2 - 4 - 4);
    assert_eq!(left.y, 25);
    let right = pair_right_pos(&rect, 5, 4, 50);
    assert_eq!(right.x, 45 + 4 / 2);
    assert_eq!(right.y, 25);
}

#[test]
fn pair_left_without_adjust_uses_single_spacing() {
    let rect = Rct::new(0, 0, 100, 100);
    let left = pair_left_pos(&rect, 0, 4, 2, 30, 50);
    assert_eq!(left.x, 50 - 30 + 2 - 4);
}

#[test]
fn ampm_marker_positions() {
    let rect = Rct::new(10, 20, 300, 300);
    let am = ampm_pos(&rect, 21, 38, 40, false);
    assert_eq!(am.x, 31);
    assert_eq!(am.y, 58);
    let pm = ampm_pos(&rect, 21, 38, 40, true);
    assert_eq!(pm.x, 31);
    assert_eq!(pm.y, 20 + 300 - 38 - 40);
}
