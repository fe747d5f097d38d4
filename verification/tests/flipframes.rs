use gluqlo::flip::{
    animation_frame_index, flap_dst_rect, flap_src_rect, flip_frame, seam_rects, top_half_rect,
};
use gluqlo::geom::Rct;

#[test]
fn full_transition_first_frame() {
    // Frame 0: upper half, the old digits ride the flap at full
    // intensity, vertical scale exactly 1.
    let f = flip_frame(100, 0);
    assert!(f.upperhalf);
    assert!(f.show_previous);
    assert_eq!(f.gray, 0xb7);
    assert_eq!(f.scale_num, f.scale_den);
    assert_eq!(f.scale_den, 49);
}

#[test]
fn full_transition_fold_frames() {
    // Last upper frame: flap squeezed to nothing.
    let f = flip_frame(100, 49);
    assert!(f.upperhalf);
    assert_eq!(f.scale_num, 0);
    assert_eq!(f.gray, 0);
    // First lower frame: the new digits appear at the smallest scale.
    let g = flip_frame(100, 50);
    assert!(!g.upperhalf);
    assert!(!g.show_previous);
    assert_eq!(g.scale_num, 1);
    assert_eq!(g.scale_den, 50);
    assert_eq!(g.gray, 0xb7 * 1 / 50);
}

#[test]
fn full_transition_last_frame() {
    let f = flip_frame(100, 99);
    assert!(!f.upperhalf);
    assert_eq!(f.gray, 0xb7);
    assert_eq!(f.scale_num, f.scale_den);
    assert_eq!(f.scale_den, 50);
}

#[test]
fn settle_frame_is_terminal() {
    // The instant redraw at start-up draws step 19 of 20: the settled
    // new card at full intensity and full scale.
    let f = flip_frame(20, 19);
    assert!(!f.upperhalf);
    assert!(!f.show_previous);
    assert_eq!(f.gray, 0xb7);
    assert_eq!(f.scale_num, f.scale_den);
}

#[test]
fn gray_and_scale_monotonic_within_halves() {
    let mut prev = flip_frame(100, 0);
    for step in 1..50 {
        let f = flip_frame(100, step);
        assert!(f.gray <= prev.gray);
        assert!(f.scale_num <= prev.scale_num);
        prev = f;
    }
    let mut prev = flip_frame(100, 50);
    for step in 51..100 {
        let f = flip_frame(100, step);
        assert!(f.gray >= prev.gray);
        assert!(f.scale_num >= prev.scale_num);
        prev = f;
    }
}

#[test]
fn frame_index_tracks_elapsed_share() {
    assert_eq!(animation_frame_index(0, 260), 0);
    assert_eq!(animation_frame_index(130, 260), 49);
    assert_eq!(animation_frame_index(260, 260), 99);
}

#[test]
fn flap_rects_upper_phase() {
    let bg = Rct::new(10, 20, 100, 100);
    let src = flap_src_rect(100, 60, true);
    assert_eq!((src.x, src.y, src.w, src.h), (0, 0, 100, 30));
    let dst = flap_dst_rect(&bg, 100, 60, true);
    // Shrinking flap stays vertically centered in the panel.
    assert_eq!((dst.x, dst.y, dst.w, dst.h), (10, 20 + (100 - 60) / 2, 100, 30));
}

#[test]
fn flap_rects_lower_phase() {
    let bg = Rct::new(10, 20, 100, 100);
    let src = flap_src_rect(100, 60, false);
    assert_eq!((src.x, src.y, src.w, src.h), (0, 30, 100, 30));
    let dst = flap_dst_rect(&bg, 100, 60, false);
    // Growing flap sits flush below the panel's midline.
    assert_eq!((dst.x, dst.y, dst.w, dst.h), (10, 70, 100, 30));
}

#[test]
fn panel_top_half() {
    let bg = Rct::new(5, 6, 40, 41);
    let top = top_half_rect(&bg);
    assert_eq!((top.x, top.y, top.w, top.h), (5, 6, 40, 20));
}

#[test]
fn seam_sits_on_the_midline() {
    let bg = Rct::new(10, 20, 100, 100);
    let (first, second) = seam_rects(&bg, 3);
    assert_eq!((first.x, first.y, first.w, first.h), (10, 20 + (100 - 3) / 2, 100, 3));
    assert_eq!((second.x, second.y, second.w, second.h), (10, first.y + 3, 100, 1));
}
