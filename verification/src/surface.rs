use vstd::prelude::*;

use crate::geom::MAX_DIM;

verus! {

/// An owned rectangular buffer of packed 32-bit pixels.  Rows are
/// `pitch` pixels apart in the flat storage; only the first `width`
/// pixels of each row are part of the image, the rest is padding.
///
/// The flat-index arithmetic of the original raw-byte surface access is
/// confined here, behind bounds-proved accessors.
pub struct PixelBuffer {
    data: Vec<u32>,
    width: usize,
    height: usize,
    pitch: usize,
}

impl PixelBuffer {
    /// Storage really has `pitch * height` pixels and dimensions are small
    /// enough that every index computation stays well inside bounds.
    pub closed spec fn wf(self) -> bool {
        self.width <= self.pitch
            && self.pitch <= MAX_DIM
            && self.height <= MAX_DIM
            && self.data@.len() == self.pitch * self.height
    }

    pub closed spec fn pwidth(self) -> int {
        self.width as int
    }

    pub closed spec fn pheight(self) -> int {
        self.height as int
    }

    pub closed spec fn ppitch(self) -> int {
        self.pitch as int
    }

    /// The pixel stored at `row`, `col` (`col` may reach into the pitch
    /// padding).
    pub closed spec fn at(self, row: int, col: int) -> u32 {
        self.data@[row * self.ppitch() + col]
    }

    /// The well-formedness bounds, for callers that cannot see into
    /// `wf` itself.
    pub proof fn lemma_wf_bounds(self)
        requires
            self.wf(),
        ensures
            self.pwidth() <= self.ppitch() <= MAX_DIM,
            self.pheight() <= MAX_DIM,
    {
    }

    pub fn width(&self) -> (w: usize)
        ensures
            w == self.pwidth(),
    {
        self.width
    }

    pub fn height(&self) -> (h: usize)
        ensures
            h == self.pheight(),
    {
        self.height
    }

    /// A fresh buffer, every pixel of every row (padding included) set to
    /// `fill`, with `pitch == width`.
    pub fn new(width: usize, height: usize, fill: u32) -> (b: PixelBuffer)
        requires
            width <= MAX_DIM,
            height <= MAX_DIM,
        ensures
            b.wf(),
            b.pwidth() == width,
            b.pheight() == height,
            b.ppitch() == width,
            forall|row: int, col: int|
                0 <= row < height && 0 <= col < width ==> b.at(row, col) == fill,
    {
        proof {
            assert(width * height <= MAX_DIM * MAX_DIM) by (nonlinear_arith)
                requires
                    width <= MAX_DIM,
                    height <= MAX_DIM,
            ;
        }
        let total: usize = width * height;
        let mut data: Vec<u32> = Vec::new();
        let mut i: usize = 0;
        while i < total
            invariant
                i <= total,
                data@.len() == i,
                forall|j: int| 0 <= j < i ==> data@[j] == fill,
            decreases total - i,
        {
            data.push(fill);
            i = i + 1;
        }
        let b = PixelBuffer { data, width, height, pitch: width };
        proof {
            assert forall|row: int, col: int|
                0 <= row < height && 0 <= col < width implies b.at(row, col) == fill by {
                assert(0 <= row * b.ppitch() + col < width * height) by (nonlinear_arith)
                    requires
                        0 <= row < height,
                        0 <= col < width,
                        b.ppitch() == width,
                ;
            }
        }
        b
    }

    /// Read one pixel of the image.
    pub fn pixel(&self, row: usize, col: usize) -> (p: u32)
        requires
            self.wf(),
            row < self.pheight(),
            col < self.pwidth(),
        ensures
            p == self.at(row as int, col as int),
    {
        proof {
            lemma_row_col_in_range(
                self.ppitch(),
                self.pheight(),
                row as int,
                col as int,
            );
        }
        let idx: usize = row * self.pitch + col;
        self.data[idx]
    }

    /// Write the color `v` into every pixel of row `row` from column
    /// `c_lo` through column `c_hi`, both inclusive; no other pixel moves.
    pub fn fill_row(&mut self, row: usize, c_lo: usize, c_hi: usize, v: u32)
        requires
            old(self).wf(),
            row < old(self).pheight(),
            c_lo <= c_hi < old(self).pwidth(),
        ensures
            final(self).wf(),
            final(self).pwidth() == old(self).pwidth(),
            final(self).pheight() == old(self).pheight(),
            final(self).ppitch() == old(self).ppitch(),
            forall|r2: int, c2: int|
                0 <= r2 < final(self).pheight() && 0 <= c2 < final(self).ppitch()
                    ==> final(self).at(r2, c2) == (
                if r2 == row && c_lo <= c2 <= c_hi {
                    v
                } else {
                    old(self).at(r2, c2)
                }),
    {
        let mut col: usize = c_lo;
        while col <= c_hi
            invariant
                self.wf(),
                self.pwidth() == old(self).pwidth(),
                self.pheight() == old(self).pheight(),
                self.ppitch() == old(self).ppitch(),
                row < self.pheight(),
                c_lo <= col <= c_hi + 1,
                c_hi < self.pwidth(),
                forall|r2: int, c2: int|
                    0 <= r2 < self.pheight() && 0 <= c2 < self.ppitch() ==> self.at(r2, c2) == (
                    if r2 == row && c_lo <= c2 < col {
                        v
                    } else {
                        old(self).at(r2, c2)
                    }),
            decreases c_hi + 1 - col,
        {
            self.set_px(row, col, v);
            col = col + 1;
        }
    }

    /// Write one pixel.
    fn set_px(&mut self, row: usize, col: usize, v: u32)
        requires
            old(self).wf(),
            row < old(self).pheight(),
            col < old(self).pwidth(),
        ensures
            final(self).wf(),
            final(self).pwidth() == old(self).pwidth(),
            final(self).pheight() == old(self).pheight(),
            final(self).ppitch() == old(self).ppitch(),
            forall|r2: int, c2: int|
                0 <= r2 < final(self).pheight() && 0 <= c2 < final(self).ppitch()
                    ==> final(self).at(r2, c2) == (
                if r2 == row && c2 == col {
                    v
                } else {
                    old(self).at(r2, c2)
                }),
    {
        proof {
            lemma_row_col_in_range(
                self.ppitch(),
                self.pheight(),
                row as int,
                col as int,
            );
        }
        let idx: usize = row * self.pitch + col;
        self.data.set(idx, v);
        proof {
            assert forall|r2: int, c2: int|
                0 <= r2 < self.pheight() && 0 <= c2 < self.ppitch() && !(r2 == row && c2 == col)
                implies self.at(r2, c2) == old(self).at(r2, c2) by {
                lemma_row_col_in_range(self.ppitch(), self.pheight(), r2, c2);
                lemma_row_col_injective(self.ppitch(), r2, c2, row as int, col as int);
                assert(r2 * self.ppitch() + c2 != row * self.ppitch() + col);
            }
        }
    }
}

/// A (row, col) pair with `col < pitch` lands strictly inside the
/// `pitch * height` storage.
proof fn lemma_row_col_in_range(pitch: int, height: int, row: int, col: int)
    by (nonlinear_arith)
    requires
        0 <= row < height,
        0 <= col < pitch,
        pitch <= MAX_DIM,
        height <= MAX_DIM,
    ensures
        0 <= row * pitch + col < pitch * height,
        row * pitch + col < 0x10000000,
{
}

/// Distinct (row, col) pairs with columns inside the pitch map to
/// distinct flat indices.
proof fn lemma_row_col_injective(pitch: int, r1: int, c1: int, r2: int, c2: int)
    by (nonlinear_arith)
    requires
        0 <= c1 < pitch,
        0 <= c2 < pitch,
        !(r1 == r2 && c1 == c2),
    ensures
        r1 * pitch + c1 != r2 * pitch + c2,
{
}

} // verus!
