//! The portable scalar convolution path.
//!
//! One destination sample at a time: gather the window's source samples,
//! accumulate `weight * sample` in an `i128` (wide enough that no product or
//! sum can overflow), then round the fixed-point accumulator to the nearest
//! integer and clamp it into the destination encoding's range.

use vstd::prelude::*;

use vstd::arithmetic::div_mod::{
    lemma_fundamental_div_mod_converse_div, lemma_fundamental_div_mod_converse_mod,
};

use crate::coefficients::{Coefficients, CoefficientsChunk, WEIGHT_HALF, WEIGHT_ONE};
use crate::coefficients::{chunk_fits, chunks_fit};
use crate::convolution::{
    clamp, column_sum, horiz_cell, horiz_result, round_weighted, vert_cell, vert_result,
    weighted_sum,
};
use crate::inner_image::{row_in_range, InnerImage};

verus! {

/// Largest magnitude one `weight * sample` product can reach: `2^63 * 2^31`.
pub const ACC_STEP: i128 = 0x4000_0000_0000_0000_0000_0000;

/// Largest magnitude the accumulator can reach: `2^32` products of magnitude
/// at most [`ACC_STEP`].
pub const ACC_LIMIT: i128 = 0x4000_0000_0000_0000_0000_0000_0000_0000;

/// Scales the accumulator down by one fixed-point weight unit, rounding to
/// the nearest integer with halves away from zero, and clamps the result
/// into `[lo, hi]`.
fn round_clamp(acc: i128, lo: i64, hi: i64) -> (r: i64)
    requires
        -ACC_LIMIT <= acc <= ACC_LIMIT,
        lo <= hi,
    ensures
        r == clamp(round_weighted(acc as int), lo as int, hi as int),
{
    let neg = acc < 0;
    let mag: u128 = if neg {
        (-acc) as u128
    } else {
        acc as u128
    };
    let biased: u128 = mag + (WEIGHT_HALF as u128);
    let q: u128 = biased / (WEIGHT_ONE as u128);
    proof {
        assert(q <= biased) by (nonlinear_arith)
            requires
                q == biased / (WEIGHT_ONE as u128),
                biased >= 0,
                WEIGHT_ONE >= 1,
        ;
    }
    let t: i128 = if neg {
        -(q as i128)
    } else {
        q as i128
    };
    proof {
        assert(t == round_weighted(acc as int));
    }
    if t < (lo as i128) {
        lo
    } else if t > (hi as i128) {
        hi
    } else {
        t as i64
    }
}

/// One destination sample of the horizontal pass: channel `c` of the window
/// of `chunk` gathered from the pixels of `row`.
fn horiz_sample(row: &Vec<i64>, chunk: &CoefficientsChunk, ch: usize, c: usize, lo: i64, hi: i64)
    -> (r: i64)
    requires
        1 <= ch,
        c < ch,
        lo <= hi,
        -0x8000_0000 <= lo,
        hi <= 0x7FFF_FFFF,
        row_in_range(row@, lo as int, hi as int),
        chunk.values@.len() < 0x1_0000_0000,
        (chunk.start + chunk.values@.len()) * ch <= row@.len(),
    ensures
        r == horiz_cell(row@, *chunk, ch as int, c as int, lo as int, hi as int),
{
    let start: usize = chunk.start as usize;
    let n: usize = chunk.values.len();
    let rl: usize = row.len();
    let mut acc: i128 = 0;
    let mut k: usize = 0;
    while k < n
        invariant
            k <= n,
            n == chunk.values@.len(),
            n < 0x1_0000_0000,
            start == chunk.start,
            1 <= ch,
            c < ch,
            lo <= hi,
            -0x8000_0000 <= lo,
            hi <= 0x7FFF_FFFF,
            row_in_range(row@, lo as int, hi as int),
            rl == row@.len(),
            (start + n) * ch <= rl,
            acc == weighted_sum(row@, start as int, ch as int, c as int, chunk.values@, k as int),
            -((k as int) * ACC_STEP) <= acc <= (k as int) * ACC_STEP,
        decreases n - k,
    {
        proof {
            assert((start + k + 1) * ch <= (start + n) * ch) by (nonlinear_arith)
                requires
                    k + 1 <= n,
                    ch >= 1,
                    start >= 0,
            ;
            assert((start + k) * ch + c < (start + k + 1) * ch) by (nonlinear_arith)
                requires
                    0 <= c < ch,
                    start + k >= 0,
            ;
            assert(start + k + 1 <= (start + k + 1) * ch) by (nonlinear_arith)
                requires
                    ch >= 1,
                    start + k + 1 >= 0,
            ;
        }
        let idx: usize = (start + k) * ch + c;
        let w: i64 = chunk.values[k];
        let s: i64 = row[idx];
        proof {
            assert(-ACC_STEP <= (w as int) * (s as int) <= ACC_STEP) by (nonlinear_arith)
                requires
                    -0x8000_0000_0000_0000 <= w <= 0x7FFF_FFFF_FFFF_FFFF,
                    -0x8000_0000 <= s <= 0x7FFF_FFFF,
                    ACC_STEP == 0x4000_0000_0000_0000_0000_0000,
            ;
            assert(((k + 1) as int) * ACC_STEP <= ACC_LIMIT) by (nonlinear_arith)
                requires
                    k + 1 <= 0x1_0000_0000,
                    ACC_STEP == 0x4000_0000_0000_0000_0000_0000,
                    ACC_LIMIT == 0x4000_0000_0000_0000_0000_0000_0000_0000,
            ;
            assert(((k + 1) as int) * ACC_STEP == (k as int) * ACC_STEP + ACC_STEP)
                by (nonlinear_arith);
        }
        acc = acc + (w as i128) * (s as i128);
        k += 1;
    }
    proof {
        assert((n as int) * ACC_STEP <= ACC_LIMIT) by (nonlinear_arith)
            requires
                n <= 0x1_0000_0000,
                ACC_STEP == 0x4000_0000_0000_0000_0000_0000,
                ACC_LIMIT == 0x4000_0000_0000_0000_0000_0000_0000_0000,
        ;
    }
    round_clamp(acc, lo, hi)
}

/// One full destination row of the horizontal pass: every channel of every
/// destination pixel, in row-major sample order.
fn horiz_row(row: &Vec<i64>, chunks: &Vec<CoefficientsChunk>, ch: usize, lo: i64, hi: i64) -> (out:
    Vec<i64>)
    requires
        1 <= ch,
        lo <= hi,
        -0x8000_0000 <= lo,
        hi <= 0x7FFF_FFFF,
        row_in_range(row@, lo as int, hi as int),
        forall|d: int|
            0 <= d < chunks@.len() ==> (#[trigger] chunks@[d]).values@.len() < 0x1_0000_0000,
        forall|d: int|
            0 <= d < chunks@.len() ==> ((#[trigger] chunks@[d]).start + chunks@[d].values@.len())
                * ch <= row@.len(),
    ensures
        out@.len() == chunks@.len() * ch,
        forall|x: int|
            0 <= x < out@.len() ==> #[trigger] out@[x] == horiz_cell(
                row@,
                chunks@[x / (ch as int)],
                ch as int,
                x % (ch as int),
                lo as int,
                hi as int,
            ),
{
    let count: usize = chunks.len();
    let mut out: Vec<i64> = Vec::new();
    let mut d: usize = 0;
    while d < count
        invariant
            d <= count,
            count == chunks@.len(),
            1 <= ch,
            lo <= hi,
            -0x8000_0000 <= lo,
            hi <= 0x7FFF_FFFF,
            row_in_range(row@, lo as int, hi as int),
            forall|i: int|
                0 <= i < chunks@.len() ==> (#[trigger] chunks@[i]).values@.len() < 0x1_0000_0000,
            forall|i: int|
                0 <= i < chunks@.len() ==> ((#[trigger] chunks@[i]).start
                    + chunks@[i].values@.len()) * ch <= row@.len(),
            out@.len() == d * ch,
            forall|x: int|
                0 <= x < out@.len() ==> #[trigger] out@[x] == horiz_cell(
                    row@,
                    chunks@[x / (ch as int)],
                    ch as int,
                    x % (ch as int),
                    lo as int,
                    hi as int,
                ),
        decreases count - d,
    {
        let chunk = &chunks[d];
        let mut c: usize = 0;
        while c < ch
            invariant
                c <= ch,
                d < count,
                count == chunks@.len(),
                chunk == chunks@[d as int],
                1 <= ch,
                lo <= hi,
                -0x8000_0000 <= lo,
                hi <= 0x7FFF_FFFF,
                row_in_range(row@, lo as int, hi as int),
                forall|i: int|
                    0 <= i < chunks@.len() ==> (#[trigger] chunks@[i]).values@.len()
                        < 0x1_0000_0000,
                forall|i: int|
                    0 <= i < chunks@.len() ==> ((#[trigger] chunks@[i]).start
                        + chunks@[i].values@.len()) * ch <= row@.len(),
                out@.len() == d * ch + c,
                forall|x: int|
                    0 <= x < out@.len() ==> #[trigger] out@[x] == horiz_cell(
                        row@,
                        chunks@[x / (ch as int)],
                        ch as int,
                        x % (ch as int),
                        lo as int,
                        hi as int,
                    ),
            decreases ch - c,
        {
            let v = horiz_sample(row, chunk, ch, c, lo, hi);
            proof {
                lemma_fundamental_div_mod_converse_div(
                    (d * ch + c) as int,
                    ch as int,
                    d as int,
                    c as int,
                );
                lemma_fundamental_div_mod_converse_mod(
                    (d * ch + c) as int,
                    ch as int,
                    d as int,
                    c as int,
                );
            }
            out.push(v);
            c += 1;
        }
        proof {
            assert(d * ch + ch == (d + 1) * ch) by (nonlinear_arith);
        }
        d += 1;
    }
    out
}

/// Horizontal pass, scalar path. For each destination row `r`, source row
/// `r + offset` is convolved with every chunk; destination row `r` is fully
/// written with the rounded, clamped results.
pub fn horiz_convolution(src: &InnerImage, dst: &mut InnerImage, offset: u32, coeffs: &Coefficients)
    requires
        src.wf(),
        old(dst).wf(),
        old(dst).pixel_type == src.pixel_type,
        !src.pixel_type.spec_is_float(),
        coeffs.chunks@.len() == old(dst).width,
        chunks_fit(coeffs.chunks@, src.width as int),
        offset + old(dst).height <= src.height,
    ensures
        final(dst).wf(),
        final(dst).width == old(dst).width,
        final(dst).height == old(dst).height,
        final(dst).pixel_type == old(dst).pixel_type,
        final(dst)@ == horiz_result(
            src@,
            coeffs.chunks@,
            offset as int,
            src.pixel_type.spec_channels() as int,
            src.pixel_type.spec_min_scalar(),
            src.pixel_type.spec_max_scalar(),
            old(dst).height as int,
        ),
{
    let ch: usize = src.pixel_type.channels() as usize;
    let lo: i64 = src.pixel_type.min_scalar();
    let hi: i64 = src.pixel_type.max_scalar();
    let out_h: usize = dst.height as usize;
    let off: usize = offset as usize;
    let chunks = coeffs.get_chunks();
    proof {
        assert(lo <= hi && -0x8000_0000 <= lo && hi <= 0x7FFF_FFFF);
        assert forall|i: int| 0 <= i < chunks@.len() implies ((#[trigger] chunks@[i]).start
            + chunks@[i].values@.len()) * ch <= src.spec_row_len() by {
            assert(chunk_fits(chunks@[i], src.width as int));
            assert((chunks@[i].start + chunks@[i].values@.len()) * ch <= src.width * ch)
                by (nonlinear_arith)
                requires
                    chunks@[i].start + chunks@[i].values@.len() <= src.width,
                    ch >= 0,
            ;
        }
    }
    let mut out: Vec<Vec<i64>> = Vec::new();
    let mut r: usize = 0;
    while r < out_h
        invariant
            r <= out_h,
            src.wf(),
            1 <= ch,
            ch == src.pixel_type.spec_channels(),
            lo == src.pixel_type.spec_min_scalar(),
            hi == src.pixel_type.spec_max_scalar(),
            lo <= hi,
            -0x8000_0000 <= lo,
            hi <= 0x7FFF_FFFF,
            off + out_h <= src.height,
            chunks@ == coeffs.chunks@,
            forall|i: int|
                0 <= i < chunks@.len() ==> (#[trigger] chunks@[i]).values@.len() < 0x1_0000_0000,
            forall|i: int|
                0 <= i < chunks@.len() ==> ((#[trigger] chunks@[i]).start
                    + chunks@[i].values@.len()) * ch <= src.spec_row_len(),
            out@.len() == r,
            forall|i: int|
                0 <= i < r ==> (#[trigger] out@[i])@.len() == chunks@.len() * ch,
            forall|i: int, x: int|
                0 <= i < r && 0 <= x < chunks@.len() * ch ==> #[trigger] out@[i]@[x] == horiz_cell(
                    src@[i + off],
                    chunks@[x / (ch as int)],
                    ch as int,
                    x % (ch as int),
                    lo as int,
                    hi as int,
                ),
        decreases out_h - r,
    {
        let src_row: &Vec<i64> = src.row(off + r);
        let new_row = horiz_row(src_row, chunks, ch, lo, hi);
        out.push(new_row);
        r += 1;
    }
    dst.rows = out;
    proof {
        let chs = src.pixel_type.spec_channels() as int;
        let expect = horiz_result(
            src@,
            coeffs.chunks@,
            offset as int,
            chs,
            lo as int,
            hi as int,
            old(dst).height as int,
        );
        assert forall|i: int| 0 <= i < out_h implies dst@[i] =~= expect[i] by {
            assert(dst@[i] == dst.rows@[i]@);
            assert forall|x: int| 0 <= x < coeffs.chunks@.len() * chs implies dst.rows@[i]@[x]
                == expect[i][x] by {
                assert(dst.rows@[i]@[x] == horiz_cell(
                    src@[i + offset],
                    coeffs.chunks@[x / chs],
                    chs,
                    x % chs,
                    lo as int,
                    hi as int,
                ));
            }
        }
        assert(dst@ =~~= expect);
        assert forall|i: int| 0 <= i < dst.height implies row_in_range(
            (#[trigger] dst.rows@[i])@,
            lo as int,
            hi as int,
        ) by {
            assert forall|x: int| 0 <= x < dst.rows@[i]@.len() implies lo
                <= #[trigger] dst.rows@[i]@[x] <= hi by {
                assert(dst.rows@[i]@[x] == horiz_cell(
                    src@[i + offset],
                    coeffs.chunks@[x / chs],
                    chs,
                    x % chs,
                    lo as int,
                    hi as int,
                ));
            }
        }
        assert(dst.spec_row_len() == coeffs.chunks@.len() * chs);
    }
}

/// One destination sample of the vertical pass: the window of `chunk`
/// gathered down column `x` of `src`.
fn vert_sample(src: &InnerImage, chunk: &CoefficientsChunk, x: usize, lo: i64, hi: i64) -> (r: i64)
    requires
        src.wf(),
        lo == src.pixel_type.spec_min_scalar(),
        hi == src.pixel_type.spec_max_scalar(),
        lo <= hi,
        -0x8000_0000 <= lo,
        hi <= 0x7FFF_FFFF,
        chunk_fits(*chunk, src.height as int),
        x < src.spec_row_len(),
    ensures
        r == vert_cell(src@, *chunk, x as int, lo as int, hi as int),
{
    let start: usize = chunk.start as usize;
    let n: usize = chunk.values.len();
    let mut acc: i128 = 0;
    let mut k: usize = 0;
    while k < n
        invariant
            k <= n,
            n == chunk.values@.len(),
            n < 0x1_0000_0000,
            start == chunk.start,
            src.wf(),
            lo <= hi,
            -0x8000_0000 <= lo,
            hi <= 0x7FFF_FFFF,
            lo == src.pixel_type.spec_min_scalar(),
            hi == src.pixel_type.spec_max_scalar(),
            start + n <= src.height,
            x < src.spec_row_len(),
            acc == column_sum(src@, start as int, x as int, chunk.values@, k as int),
            -((k as int) * ACC_STEP) <= acc <= (k as int) * ACC_STEP,
        decreases n - k,
    {
        let w: i64 = chunk.values[k];
        let s: i64 = src.rows[start + k][x];
        proof {
            assert(src@[start + k] == src.rows@[(start + k) as int]@);
            assert(-ACC_STEP <= (w as int) * (s as int) <= ACC_STEP) by (nonlinear_arith)
                requires
                    -0x8000_0000_0000_0000 <= w <= 0x7FFF_FFFF_FFFF_FFFF,
                    -0x8000_0000 <= s <= 0x7FFF_FFFF,
                    ACC_STEP == 0x4000_0000_0000_0000_0000_0000,
            ;
            assert(((k + 1) as int) * ACC_STEP <= ACC_LIMIT) by (nonlinear_arith)
                requires
                    k + 1 <= 0x1_0000_0000,
                    ACC_STEP == 0x4000_0000_0000_0000_0000_0000,
                    ACC_LIMIT == 0x4000_0000_0000_0000_0000_0000_0000_0000,
            ;
            assert(((k + 1) as int) * ACC_STEP == (k as int) * ACC_STEP + ACC_STEP)
                by (nonlinear_arith);
        }
        acc = acc + (w as i128) * (s as i128);
        k += 1;
    }
    proof {
        assert((n as int) * ACC_STEP <= ACC_LIMIT) by (nonlinear_arith)
            requires
                n <= 0x1_0000_0000,
                ACC_STEP == 0x4000_0000_0000_0000_0000_0000,
                ACC_LIMIT == 0x4000_0000_0000_0000_0000_0000_0000_0000,
        ;
    }
    round_clamp(acc, lo, hi)
}

/// Vertical pass, scalar path. For each destination row `r`, chunk `r`'s
/// window of source rows is convolved down every column; destination row `r`
/// is fully written with the rounded, clamped results.
pub fn vert_convolution(src: &InnerImage, dst: &mut InnerImage, coeffs: &Coefficients)
    requires
        src.wf(),
        old(dst).wf(),
        old(dst).pixel_type == src.pixel_type,
        !src.pixel_type.spec_is_float(),
        coeffs.chunks@.len() == old(dst).height,
        chunks_fit(coeffs.chunks@, src.height as int),
        old(dst).width == src.width,
    ensures
        final(dst).wf(),
        final(dst).width == old(dst).width,
        final(dst).height == old(dst).height,
        final(dst).pixel_type == old(dst).pixel_type,
        final(dst)@ == vert_result(
            src@,
            coeffs.chunks@,
            src.spec_row_len(),
            src.pixel_type.spec_min_scalar(),
            src.pixel_type.spec_max_scalar(),
        ),
{
    let ch: usize = src.pixel_type.channels() as usize;
    let lo: i64 = src.pixel_type.min_scalar();
    let hi: i64 = src.pixel_type.max_scalar();
    let out_h: usize = coeffs.chunks.len();
    let chunks = coeffs.get_chunks();
    proof {
        assert(lo <= hi && -0x8000_0000 <= lo && hi <= 0x7FFF_FFFF);
        assert(src.rows@[0]@.len() == src.spec_row_len());
    }
    let row_len: usize = src.rows[0].len();
    let mut out: Vec<Vec<i64>> = Vec::new();
    let mut r: usize = 0;
    while r < out_h
        invariant
            r <= out_h,
            src.wf(),
            lo == src.pixel_type.spec_min_scalar(),
            hi == src.pixel_type.spec_max_scalar(),
            lo <= hi,
            -0x8000_0000 <= lo,
            hi <= 0x7FFF_FFFF,
            row_len == src.spec_row_len(),
            chunks@ == coeffs.chunks@,
            out_h == chunks@.len(),
            chunks_fit(chunks@, src.height as int),
            out@.len() == r,
            forall|i: int| 0 <= i < r ==> (#[trigger] out@[i])@.len() == row_len,
            forall|i: int, x: int|
                0 <= i < r && 0 <= x < row_len ==> #[trigger] out@[i]@[x] == vert_cell(
                    src@,
                    chunks@[i],
                    x,
                    lo as int,
                    hi as int,
                ),
        decreases out_h - r,
    {
        let chunk = &chunks[r];
        let mut row: Vec<i64> = Vec::new();
        let mut x: usize = 0;
        while x < row_len
            invariant
                x <= row_len,
                r < out_h,
                src.wf(),
                lo == src.pixel_type.spec_min_scalar(),
                hi == src.pixel_type.spec_max_scalar(),
                lo <= hi,
                -0x8000_0000 <= lo,
                hi <= 0x7FFF_FFFF,
                row_len == src.spec_row_len(),
                out_h == chunks@.len(),
                chunk == chunks@[r as int],
                chunk_fits(*chunk, src.height as int),
                row@.len() == x,
                forall|j: int|
                    0 <= j < x ==> #[trigger] row@[j] == vert_cell(
                        src@,
                        chunks@[r as int],
                        j,
                        lo as int,
                        hi as int,
                    ),
            decreases row_len - x,
        {
            let v = vert_sample(src, chunk, x, lo, hi);
            row.push(v);
            x += 1;
        }
        out.push(row);
        r += 1;
    }
    dst.rows = out;
    proof {
        let expect = vert_result(
            src@,
            coeffs.chunks@,
            src.spec_row_len(),
            lo as int,
            hi as int,
        );
        assert forall|i: int| 0 <= i < out_h implies dst@[i] =~= expect[i] by {
            assert(dst@[i] == dst.rows@[i]@);
        }
        assert(dst@ =~~= expect);
        assert forall|i: int| 0 <= i < dst.height implies row_in_range(
            (#[trigger] dst.rows@[i])@,
            lo as int,
            hi as int,
        ) by {
            assert forall|x: int| 0 <= x < dst.rows@[i]@.len() implies lo
                <= #[trigger] dst.rows@[i]@[x] <= hi by {
                assert(dst.rows@[i]@[x] == vert_cell(
                    src@,
                    coeffs.chunks@[i],
                    x,
                    lo as int,
                    hi as int,
                ));
            }
        }
    }
}

} // verus!
