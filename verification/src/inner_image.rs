//! Typed, row-major pixel storage.
//!
//! An [`InnerImage`] holds every scalar channel of every pixel as a plain
//! `i64` sample, one owned vector per row. Because each row is a separate
//! allocation, row updates are structurally disjoint: writing one row cannot
//! touch any other. The convolution engine reads and writes images in this
//! form; the byte-buffer container converts to and from it.

use vstd::prelude::*;

use crate::pixels::PixelType;

verus! {

/// True when every sample of `row` lies in `[lo, hi]`.
pub open spec fn row_in_range(row: Seq<i64>, lo: int, hi: int) -> bool {
    forall|j: int| 0 <= j < row.len() ==> lo <= #[trigger] row[j] <= hi
}

/// Generic image container used by the convolution engine: `height` rows of
/// `width` pixels, each pixel `channels` scalar samples, stored row-major as
/// `i64` values. For integer encodings a sample is the channel value itself;
/// for `F32` it is the 32-bit pattern of the stored float.
pub struct InnerImage {
    /// Pixels per row; never zero.
    pub width: u32,
    /// Number of rows; never zero.
    pub height: u32,
    /// The encoding the samples came from; fixes channel count and the range
    /// every sample must lie in.
    pub pixel_type: PixelType,
    /// `height` rows, each of exactly `width * channels` samples.
    pub rows: Vec<Vec<i64>>,
}

impl View for InnerImage {
    type V = Seq<Seq<i64>>;

    open spec fn view(&self) -> Seq<Seq<i64>> {
        self.rows@.map_values(|r: Vec<i64>| r@)
    }
}

impl InnerImage {
    /// Samples per row.
    pub open spec fn spec_row_len(self) -> int {
        self.width * self.pixel_type.spec_channels()
    }

    /// Structural invariant: positive dimensions, one row vector per row,
    /// every row of the same full length, every sample within the encoding's
    /// range.
    pub open spec fn wf(self) -> bool {
        &&& self.width >= 1
        &&& self.height >= 1
        &&& self.rows@.len() == self.height
        &&& forall|i: int|
            0 <= i < self.height ==> (#[trigger] self.rows@[i])@.len() == self.spec_row_len()
        &&& forall|i: int|
            0 <= i < self.height
                ==> row_in_range(
                (#[trigger] self.rows@[i])@,
                self.pixel_type.spec_min_scalar(),
                self.pixel_type.spec_max_scalar(),
            )
    }

    /// Splits a flat row-major sample vector into rows of `width` pixels.
    ///
    /// The sample at row `r`, position `x` of the result is
    /// `pixels[r * width * channels + x]`.
    pub fn new(width: u32, height: u32, pixel_type: PixelType, pixels: Vec<i64>) -> (img:
        InnerImage)
        requires
            width >= 1,
            height >= 1,
            pixels@.len() == width * height * pixel_type.spec_channels(),
            row_in_range(
                pixels@,
                pixel_type.spec_min_scalar(),
                pixel_type.spec_max_scalar(),
            ),
        ensures
            img.wf(),
            img.width == width,
            img.height == height,
            img.pixel_type == pixel_type,
            forall|r: int, x: int|
                0 <= r < height && 0 <= x < width * pixel_type.spec_channels()
                    ==> #[trigger] img@[r][x] == pixels@[
                    r * (width * pixel_type.spec_channels()) + x],
    {
        let channels = pixel_type.channels();
        let total: usize = pixels.len();
        proof {
            assert(width * height * channels == height * (width * channels))
                by (nonlinear_arith);
            assert(width * channels <= height * (width * channels)) by (nonlinear_arith)
                requires
                    height >= 1,
                    width * channels >= 0,
            ;
        }
        let stride: usize = (width as usize) * (channels as usize);
        let mut rows: Vec<Vec<i64>> = Vec::new();
        let mut r: usize = 0;
        while r < height as usize
            invariant
                0 <= r <= height,
                total == pixels@.len(),
                stride == width * channels,
                channels == pixel_type.spec_channels(),
                pixels@.len() == height * stride,
                row_in_range(
                    pixels@,
                    pixel_type.spec_min_scalar(),
                    pixel_type.spec_max_scalar(),
                ),
                rows@.len() == r,
                forall|i: int| 0 <= i < r ==> (#[trigger] rows@[i])@.len() == stride,
                forall|i: int, x: int|
                    0 <= i < r && 0 <= x < stride ==> #[trigger] rows@[i]@[x] == pixels@[i * stride
                        + x],
            decreases height - r,
        {
            proof {
                assert((r + 1) * stride == r * stride + stride) by (nonlinear_arith);
                assert(r * stride >= 0) by (nonlinear_arith)
                    requires
                        r >= 0,
                        stride >= 0,
                ;
                assert((r + 1) * stride <= height * stride) by (nonlinear_arith)
                    requires
                        r + 1 <= height,
                        stride >= 0,
                ;
                assert(r * stride + stride <= pixels@.len());
            }
            let base: usize = r * stride;
            let mut row: Vec<i64> = Vec::new();
            let mut x: usize = 0;
            while x < stride
                invariant
                    0 <= x <= stride,
                    base == r * stride,
                    total == pixels@.len(),
                    base + stride <= total,
                    row_in_range(
                        pixels@,
                        pixel_type.spec_min_scalar(),
                        pixel_type.spec_max_scalar(),
                    ),
                    row@.len() == x,
                    forall|j: int| 0 <= j < x ==> #[trigger] row@[j] == pixels@[base + j],
                decreases stride - x,
            {
                row.push(pixels[base + x]);
                x += 1;
            }
            rows.push(row);
            r += 1;
        }
        let img = InnerImage { width, height, pixel_type, rows };
        proof {
            assert forall|i: int| 0 <= i < height implies row_in_range(
                (#[trigger] img.rows@[i])@,
                pixel_type.spec_min_scalar(),
                pixel_type.spec_max_scalar(),
            ) by {
                assert forall|x: int| 0 <= x < img.rows@[i]@.len() implies
                    pixel_type.spec_min_scalar() <= #[trigger] img.rows@[i]@[x]
                        <= pixel_type.spec_max_scalar() by {
                    assert(0 <= i * stride + x < pixels@.len()) by (nonlinear_arith)
                        requires
                            0 <= i < height,
                            0 <= x < stride,
                            pixels@.len() == height * stride,
                    ;
                    assert(img.rows@[i]@[x] == pixels@[i * stride + x]);
                }
            }
            assert(width * height * channels == height * (width * channels))
                by (nonlinear_arith);
        }
        img
    }

    /// Read-only view of the rows, for a pass that only gathers from this
    /// image.
    pub fn src_view(&self) -> (r: &Vec<Vec<i64>>)
        ensures
            r@ == self.rows@,
    {
        &self.rows
    }

    /// Mutable view of the rows, for the pass that writes this image: the
    /// rows reached through it are this image's own rows, and the dimensions
    /// and encoding cannot change through it.
    pub fn dst_view(&mut self) -> (r: &mut Vec<Vec<i64>>)
        ensures
            *r == old(self).rows,
            final(self).rows == *final(r),
            final(self).width == old(self).width,
            final(self).height == old(self).height,
            final(self).pixel_type == old(self).pixel_type,
    {
        &mut self.rows
    }

    /// Read-only access to row `i`, the analogue of iterating rows from an
    /// offset: callers index from whatever starting row they need.
    pub fn row(&self, i: usize) -> (r: &Vec<i64>)
        requires
            self.wf(),
            i < self.height,
        ensures
            r@ == self@[i as int],
    {
        &self.rows[i]
    }

    /// Replaces row `i` in full. Rows are disjoint allocations, so every
    /// other row is left exactly as it was: the result's view is the old view
    /// with only index `i` updated.
    pub fn set_row(&mut self, i: usize, row: Vec<i64>)
        requires
            old(self).wf(),
            i < old(self).height,
            row@.len() == old(self).spec_row_len(),
            row_in_range(
                row@,
                old(self).pixel_type.spec_min_scalar(),
                old(self).pixel_type.spec_max_scalar(),
            ),
        ensures
            final(self).wf(),
            final(self).width == old(self).width,
            final(self).height == old(self).height,
            final(self).pixel_type == old(self).pixel_type,
            final(self)@ == old(self)@.update(i as int, row@),
            forall|j: int|
                0 <= j < final(self).height && j != i ==> #[trigger] final(self)@[j] == old(
                    self,
                )@[j],
    {
        self.rows[i] = row;
        proof {
            assert(self@ =~= old(self)@.update(i as int, row@));
        }
    }
}

} // verus!
