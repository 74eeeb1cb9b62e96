//! Separable convolution along one axis of a typed image.
//!
//! Both passes accumulate `weight * sample` products exactly, in 128-bit
//! intermediate precision, then round the fixed-point accumulator to the
//! nearest integer and clamp it to the destination encoding's range. The
//! functions here select an implementation from a caller's acceleration
//! preference; the portable scalar path in [`native`] is the single mandatory
//! implementation and every preference resolves to a path that computes
//! exactly the same result.

pub mod native;

use vstd::prelude::*;

use crate::coefficients::{Coefficients, CoefficientsChunk, WEIGHT_HALF, WEIGHT_ONE};
use crate::coefficients::chunks_fit;
use crate::inner_image::InnerImage;

verus! {

/// A caller's acceleration preference. Only the portable scalar path exists
/// here; any other preference silently falls back to it, so the preference
/// never changes the numeric result.
#[derive(Clone, Copy, Debug, PartialEq, Eq, Structural)]
pub enum CpuExtensions {
    /// The portable scalar implementation.
    Scalar,
    /// Prefer an SSE4.1 implementation where one exists.
    Sse4_1,
    /// Prefer an AVX2 implementation where one exists.
    Avx2,
}

/// `v` forced into `[lo, hi]`.
pub open spec fn clamp(v: int, lo: int, hi: int) -> int {
    if v < lo {
        lo
    } else if v > hi {
        hi
    } else {
        v
    }
}

/// The fixed-point accumulator `acc` scaled down by [`WEIGHT_ONE`] and
/// rounded to the nearest integer, halves away from zero.
pub open spec fn round_weighted(acc: int) -> int {
    if acc >= 0 {
        (acc + WEIGHT_HALF) / (WEIGHT_ONE as int)
    } else {
        -(((-acc) + WEIGHT_HALF) / (WEIGHT_ONE as int))
    }
}

/// Sum of the first `n` weighted samples of one channel of a horizontal
/// window: `weights[k]` times the sample of channel `c` of pixel `start + k`
/// in `row`, for `k < n`. A pixel of `row` is `ch` consecutive samples.
pub open spec fn weighted_sum(
    row: Seq<i64>,
    start: int,
    ch: int,
    c: int,
    weights: Seq<i64>,
    n: int,
) -> int
    decreases n,
{
    if n <= 0 {
        0
    } else {
        weighted_sum(row, start, ch, c, weights, n - 1) + weights[n - 1] * row[(start + n - 1) * ch
            + c]
    }
}

/// Sum of the first `n` weighted samples of a vertical window: `weights[k]`
/// times sample `x` of row `start + k`, for `k < n`.
pub open spec fn column_sum(
    rows: Seq<Seq<i64>>,
    start: int,
    x: int,
    weights: Seq<i64>,
    n: int,
) -> int
    decreases n,
{
    if n <= 0 {
        0
    } else {
        column_sum(rows, start, x, weights, n - 1) + weights[n - 1] * rows[start + n - 1][x]
    }
}

/// One destination sample of the horizontal pass: the window of `chunk`
/// gathered from channel `c` of `row`, rounded and clamped to `[lo, hi]`.
pub open spec fn horiz_cell(
    row: Seq<i64>,
    chunk: CoefficientsChunk,
    ch: int,
    c: int,
    lo: int,
    hi: int,
) -> i64 {
    clamp(
        round_weighted(
            weighted_sum(row, chunk.start as int, ch, c, chunk.values@, chunk.values@.len() as int),
        ),
        lo,
        hi,
    ) as i64
}

/// One destination sample of the vertical pass: the window of `chunk`
/// gathered down column `x` of `rows`, rounded and clamped to `[lo, hi]`.
pub open spec fn vert_cell(
    rows: Seq<Seq<i64>>,
    chunk: CoefficientsChunk,
    x: int,
    lo: int,
    hi: int,
) -> i64 {
    clamp(
        round_weighted(
            column_sum(rows, chunk.start as int, x, chunk.values@, chunk.values@.len() as int),
        ),
        lo,
        hi,
    ) as i64
}

/// The full result grid of the horizontal pass: `out_height` rows; in row
/// `r`, the sample at position `x` is the cell of destination pixel `x / ch`,
/// channel `x % ch`, gathered from source row `r + offset`.
pub open spec fn horiz_result(
    src: Seq<Seq<i64>>,
    chunks: Seq<CoefficientsChunk>,
    offset: int,
    ch: int,
    lo: int,
    hi: int,
    out_height: int,
) -> Seq<Seq<i64>> {
    Seq::new(
        out_height as nat,
        |r: int|
            Seq::new(
                (chunks.len() * ch) as nat,
                |x: int| horiz_cell(src[r + offset], chunks[x / ch], ch, x % ch, lo, hi),
            ),
    )
}

/// The full result grid of the vertical pass: one row per chunk; in row `r`,
/// the sample at position `x` is the cell of chunk `r` gathered down column
/// `x` of the source.
pub open spec fn vert_result(
    src: Seq<Seq<i64>>,
    chunks: Seq<CoefficientsChunk>,
    row_len: int,
    lo: int,
    hi: int,
) -> Seq<Seq<i64>> {
    Seq::new(
        chunks.len(),
        |r: int| Seq::new(row_len as nat, |x: int| vert_cell(src, chunks[r], x, lo, hi)),
    )
}

/// Horizontal pass under an acceleration preference. Every preference
/// resolves to the scalar path, so the result is always the scalar result.
pub fn horiz_convolution(
    src: &InnerImage,
    dst: &mut InnerImage,
    offset: u32,
    coeffs: &Coefficients,
    cpu_extensions: CpuExtensions,
)
    requires
        src.wf(),
        old(dst).wf(),
        old(dst).pixel_type == src.pixel_type,
        !src.pixel_type.spec_is_float(),
        coeffs.chunks@.len() == old(dst).width,
        chunks_fit(coeffs.chunks@, src.width as int),
        offset + old(dst).height <= src.height,
    ensures
        final(dst).wf(),
        final(dst).width == old(dst).width,
        final(dst).height == old(dst).height,
        final(dst).pixel_type == old(dst).pixel_type,
        final(dst)@ == horiz_result(
            src@,
            coeffs.chunks@,
            offset as int,
            src.pixel_type.spec_channels() as int,
            src.pixel_type.spec_min_scalar(),
            src.pixel_type.spec_max_scalar(),
            old(dst).height as int,
        ),
{
    match cpu_extensions {
        _ => native::horiz_convolution(src, dst, offset, coeffs),
    }
}

/// Vertical pass under an acceleration preference. Every preference resolves
/// to the scalar path, so the result is always the scalar result.
pub fn vert_convolution(
    src: &InnerImage,
    dst: &mut InnerImage,
    coeffs: &Coefficients,
    cpu_extensions: CpuExtensions,
)
    requires
        src.wf(),
        old(dst).wf(),
        old(dst).pixel_type == src.pixel_type,
        !src.pixel_type.spec_is_float(),
        coeffs.chunks@.len() == old(dst).height,
        chunks_fit(coeffs.chunks@, src.height as int),
        old(dst).width == src.width,
    ensures
        final(dst).wf(),
        final(dst).width == old(dst).width,
        final(dst).height == old(dst).height,
        final(dst).pixel_type == old(dst).pixel_type,
        final(dst)@ == vert_result(
            src@,
            coeffs.chunks@,
            src.spec_row_len(),
            src.pixel_type.spec_min_scalar(),
            src.pixel_type.spec_max_scalar(),
        ),
{
    match cpu_extensions {
        _ => native::vert_convolution(src, dst, coeffs),
    }
}

} // verus!
