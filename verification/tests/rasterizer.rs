use gluqlo::geom::Rct;
use gluqlo::rounded::fill_rounded_box;
use gluqlo::surface::PixelBuffer;

const BG: u32 = 7;
const INK: u32 = 42;

fn drawn(buf: &PixelBuffer, row: usize, col: usize) -> bool {
    buf.pixel(row, col) == INK
}

#[test]
fn rounded_box_midlines_colored_corners_spared() {
    let mut buf = PixelBuffer::new(40, 40, BG);
    let rect = Rct::new(2, 2, 36, 36);
    fill_rounded_box(&mut buf, &rect, 5, INK);

    // The four outermost corner pixels of the bounding box keep the
    // background.
    assert_eq!(buf.pixel(2, 2), BG);
    assert_eq!(buf.pixel(2, 37), BG);
    assert_eq!(buf.pixel(37, 2), BG);
    assert_eq!(buf.pixel(37, 37), BG);

    // The horizontal midline is colored across the whole touched width
    // (columns rect.x .. rect.x + 2*(w/2 - 1)).
    let mid = 19;
    for col in 2..=36 {
        assert!(drawn(&buf, mid, col));
    }
    // The vertical midline is colored across the whole touched height.
    for row in 2..=36 {
        assert!(drawn(&buf, row, mid));
    }
    // Pixels outside the touched box are untouched.
    for i in 0..40 {
        assert_eq!(buf.pixel(0, i), BG);
        assert_eq!(buf.pixel(39, i), BG);
        assert_eq!(buf.pixel(i, 0), BG);
        assert_eq!(buf.pixel(i, 39), BG);
    }
}

#[test]
fn rounded_box_small_radius_exact_profile() {
    // r = 2 on a 12x12 rect starting at the origin of a 12x12 buffer.
    let mut buf = PixelBuffer::new(12, 12, BG);
    let rect = Rct::new(0, 0, 12, 12);
    fill_rounded_box(&mut buf, &rect, 2, INK);
    // half extents 5, straight extents 3, center (5, 5).
    // Central rows 2..=8 are colored over columns 0..=10.
    for row in 2..=8 {
        for col in 0..=10 {
            assert!(drawn(&buf, row, col));
        }
    }
    // Cap rows 0 and 10 are colored over the straight columns 2..=8.
    for col in 2..=8 {
        assert!(drawn(&buf, 0, col));
        assert!(drawn(&buf, 10, col));
    }
    // The corner pixels of the bounding box stay background.
    assert_eq!(buf.pixel(0, 0), BG);
    assert_eq!(buf.pixel(0, 11), BG);
    assert_eq!(buf.pixel(11, 0), BG);
    assert_eq!(buf.pixel(11, 11), BG);
}

#[test]
fn rounded_box_noop_when_radius_half_of_side() {
    // 2r >= width: the call must leave the buffer exactly as it was.
    let mut buf = PixelBuffer::new(16, 16, BG);
    let rect = Rct::new(3, 3, 10, 10);
    fill_rounded_box(&mut buf, &rect, 5, INK);
    for row in 0..16 {
        for col in 0..16 {
            assert_eq!(buf.pixel(row, col), BG);
        }
    }
}

#[test]
fn rounded_box_noop_when_no_straight_span() {
    // Even with 2r < min(w, h), a rect too small to leave a straight
    // span is skipped (w/2 - 1 - r <= 0).
    let mut buf = PixelBuffer::new(8, 8, BG);
    let rect = Rct::new(1, 1, 4, 4);
    fill_rounded_box(&mut buf, &rect, 1, INK);
    for row in 0..8 {
        for col in 0..8 {
            assert_eq!(buf.pixel(row, col), BG);
        }
    }
}

#[test]
fn pixel_buffer_new_fills_everything() {
    let buf = PixelBuffer::new(5, 3, 9);
    assert_eq!(buf.width(), 5);
    assert_eq!(buf.height(), 3);
    for row in 0..3 {
        for col in 0..5 {
            assert_eq!(buf.pixel(row, col), 9);
        }
    }
}

#[test]
fn fill_row_colors_exactly_the_span() {
    let mut buf = PixelBuffer::new(6, 4, BG);
    buf.fill_row(2, 1, 4, INK);
    for row in 0..4 {
        for col in 0..6 {
            if row == 2 && (1..=4).contains(&col) {
                assert_eq!(buf.pixel(row, col), INK);
            } else {
                assert_eq!(buf.pixel(row, col), BG);
            }
        }
    }
}
