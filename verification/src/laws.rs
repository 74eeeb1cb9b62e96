//! Laws of the convolution engine.
//!
//! Each law is stated over the same spec-level result grids that the engine's
//! contracts use, so it holds of everything the engine can produce: an
//! identity coefficient window reproduces the source exactly, the vertical
//! pass on a transposed image is the horizontal pass, and multi-channel
//! convolution treats every channel independently.

use vstd::prelude::*;

use vstd::arithmetic::div_mod::{
    lemma_fundamental_div_mod, lemma_fundamental_div_mod_converse_div,
    lemma_fundamental_div_mod_converse_mod, lemma_mod_bound,
};

use crate::coefficients::{chunks_fit, CoefficientsChunk, WEIGHT_HALF, WEIGHT_ONE};
use crate::convolution::{
    column_sum, horiz_cell, horiz_result, round_weighted, vert_cell, vert_result, weighted_sum,
};
use crate::inner_image::InnerImage;

verus! {

/// Identity coefficients for an axis: chunk `d` covers the single source
/// index `d` with the fixed-point weight for `1.0`.
pub open spec fn identity_chunks(chunks: Seq<CoefficientsChunk>) -> bool {
    forall|d: int|
        0 <= d < chunks.len() ==> (#[trigger] chunks[d]).start == d && chunks[d].values@ == seq![
            WEIGHT_ONE,
        ]
}

/// Rounding a sample scaled by the unit weight gives the sample back.
proof fn lemma_round_unit(s: int)
    ensures
        round_weighted(WEIGHT_ONE * s) == s,
{
    if s >= 0 {
        lemma_fundamental_div_mod_converse_div(
            WEIGHT_ONE * s + WEIGHT_HALF,
            WEIGHT_ONE as int,
            s,
            WEIGHT_HALF as int,
        );
    } else {
        assert(-(WEIGHT_ONE * s) == WEIGHT_ONE * (-s));
        lemma_fundamental_div_mod_converse_div(
            WEIGHT_ONE * (-s) + WEIGHT_HALF,
            WEIGHT_ONE as int,
            -s,
            WEIGHT_HALF as int,
        );
    }
}

/// Identity law, horizontal: with one unit weight at the matching source
/// index for every destination index, the horizontal pass reproduces the
/// source exactly.
pub proof fn lemma_identity_horiz(src: InnerImage, chunks: Seq<CoefficientsChunk>)
    requires
        src.wf(),
        chunks.len() == src.width,
        identity_chunks(chunks),
    ensures
        horiz_result(
            src@,
            chunks,
            0,
            src.pixel_type.spec_channels() as int,
            src.pixel_type.spec_min_scalar(),
            src.pixel_type.spec_max_scalar(),
            src.height as int,
        ) == src@,
{
    let ch = src.pixel_type.spec_channels() as int;
    let lo = src.pixel_type.spec_min_scalar();
    let hi = src.pixel_type.spec_max_scalar();
    let grid = horiz_result(src@, chunks, 0, ch, lo, hi, src.height as int);
    assert forall|r: int| 0 <= r < src.height implies grid[r] =~= src@[r] by {
        assert(src@[r].len() == src.spec_row_len());
        assert forall|x: int| 0 <= x < chunks.len() * ch implies grid[r][x] == src@[r][x] by {
            lemma_fundamental_div_mod(x, ch);
            lemma_mod_bound(x, ch);
            let d = x / ch;
            let c = x % ch;
            assert(0 <= d < chunks.len()) by (nonlinear_arith)
                requires
                    x == ch * d + c,
                    0 <= c < ch,
                    0 <= x < chunks.len() * ch,
            ;
            let s = src@[r][x];
            reveal_with_fuel(weighted_sum, 2);
            assert(chunks[d].values@[0] == WEIGHT_ONE);
            assert(weighted_sum(src@[r], d, ch, c, chunks[d].values@, 1) == WEIGHT_ONE * s);
            lemma_round_unit(s as int);
            assert(lo <= s <= hi);
        }
    }
    assert(grid =~~= src@);
}

/// Identity law, vertical: with one unit weight at the matching source row
/// for every destination row, the vertical pass reproduces the source
/// exactly.
pub proof fn lemma_identity_vert(src: InnerImage, chunks: Seq<CoefficientsChunk>)
    requires
        src.wf(),
        chunks.len() == src.height,
        identity_chunks(chunks),
    ensures
        vert_result(
            src@,
            chunks,
            src.spec_row_len(),
            src.pixel_type.spec_min_scalar(),
            src.pixel_type.spec_max_scalar(),
        ) == src@,
{
    let lo = src.pixel_type.spec_min_scalar();
    let hi = src.pixel_type.spec_max_scalar();
    let grid = vert_result(src@, chunks, src.spec_row_len(), lo, hi);
    assert forall|r: int| 0 <= r < src.height implies grid[r] =~= src@[r] by {
        assert(src@[r].len() == src.spec_row_len());
        assert forall|x: int| 0 <= x < src.spec_row_len() implies grid[r][x] == src@[r][x] by {
            let s = src@[r][x];
            reveal_with_fuel(column_sum, 2);
            assert(chunks[r].values@[0] == WEIGHT_ONE);
            assert(column_sum(src@, r, x, chunks[r].values@, 1) == WEIGHT_ONE * s);
            lemma_round_unit(s as int);
            assert(lo <= s <= hi);
        }
    }
    assert(grid =~~= src@);
}

/// The grid `m`, of `h` rows of `w` pixels of `ch` samples each, with pixel
/// rows and columns swapped: pixel `(r, d)` of the result is pixel `(d, r)`
/// of `m`, channels kept in order.
pub open spec fn transpose_grid(m: Seq<Seq<i64>>, ch: int, w: int, h: int) -> Seq<Seq<i64>> {
    Seq::new(w as nat, |j: int| Seq::new((h * ch) as nat, |y: int| m[y / ch][j * ch + y % ch]))
}

/// The weighted window down one column of the transposed grid is the
/// weighted window along one row of the original.
proof fn lemma_column_of_transpose(
    src: Seq<Seq<i64>>,
    ch: int,
    w: int,
    h: int,
    r: int,
    c: int,
    start: int,
    vals: Seq<i64>,
    n: int,
)
    requires
        ch >= 1,
        0 <= r < h,
        0 <= c < ch,
        src.len() == h,
        0 <= start,
        0 <= n,
        start + n <= w,
    ensures
        column_sum(transpose_grid(src, ch, w, h), start, r * ch + c, vals, n) == weighted_sum(
            src[r],
            start,
            ch,
            c,
            vals,
            n,
        ),
    decreases n,
{
    if n > 0 {
        lemma_column_of_transpose(src, ch, w, h, r, c, start, vals, n - 1);
        let t = transpose_grid(src, ch, w, h);
        let y = r * ch + c;
        assert(0 <= r * ch + c < h * ch) by (nonlinear_arith)
            requires
                0 <= r < h,
                0 <= c < ch,
                ch >= 1,
        ;
        lemma_fundamental_div_mod_converse_div(y, ch, r, c);
        lemma_fundamental_div_mod_converse_mod(y, ch, r, c);
        assert(t[start + n - 1][y] == src[r][(start + n - 1) * ch + c]);
    }
}

/// Separability law: the vertical pass applied to the transposed image,
/// transposed back, is the horizontal pass on the original image, for the
/// same coefficients.
pub proof fn lemma_separability(
    src: Seq<Seq<i64>>,
    chunks: Seq<CoefficientsChunk>,
    ch: int,
    lo: int,
    hi: int,
    w: int,
    h: int,
)
    requires
        ch >= 1,
        w >= 1,
        h >= 1,
        src.len() == h,
        forall|r: int| 0 <= r < h ==> (#[trigger] src[r]).len() == w * ch,
        chunks_fit(chunks, w),
    ensures
        transpose_grid(
            vert_result(transpose_grid(src, ch, w, h), chunks, h * ch, lo, hi),
            ch,
            h,
            chunks.len() as int,
        ) == horiz_result(src, chunks, 0, ch, lo, hi, h),
{
    let t = transpose_grid(src, ch, w, h);
    let v = vert_result(t, chunks, h * ch, lo, hi);
    let back = transpose_grid(v, ch, h, chunks.len() as int);
    let direct = horiz_result(src, chunks, 0, ch, lo, hi, h);
    assert forall|r: int| 0 <= r < h implies back[r] =~= direct[r] by {
        assert(back[r].len() == chunks.len() * ch);
        assert forall|x: int| 0 <= x < chunks.len() * ch implies back[r][x] == direct[r][x] by {
            lemma_fundamental_div_mod(x, ch);
            lemma_mod_bound(x, ch);
            let d = x / ch;
            let c = x % ch;
            assert(0 <= d < chunks.len()) by (nonlinear_arith)
                requires
                    x == ch * d + c,
                    0 <= c < ch,
                    0 <= x < chunks.len() * ch,
            ;
            assert(back[r][x] == v[d][r * ch + c]);
            assert(v[d] == Seq::new((h * ch) as nat, |y: int| vert_cell(t, chunks[d], y, lo, hi)));
            assert(0 <= r * ch + c < h * ch) by (nonlinear_arith)
                requires
                    0 <= r < h,
                    0 <= c < ch,
            ;
            assert(v[d][r * ch + c] == vert_cell(t, chunks[d], r * ch + c, lo, hi));
            lemma_column_of_transpose(
                src,
                ch,
                w,
                h,
                r,
                c,
                chunks[d].start as int,
                chunks[d].values@,
                chunks[d].values@.len() as int,
            );
        }
    }
    assert(back =~~= direct);
}

/// The grid `m` restricted to channel `c`: same rows, one sample per pixel.
pub open spec fn channel_grid(m: Seq<Seq<i64>>, ch: int, c: int) -> Seq<Seq<i64>> {
    Seq::new(m.len(), |r: int| Seq::new(((m[r].len() as int) / ch) as nat, |d: int| m[r][d * ch + c]))
}

/// The weighted window of channel `c` of a multi-channel row is the
/// weighted window of the single-channel row made of that channel.
proof fn lemma_window_of_channel(
    row: Seq<i64>,
    ch: int,
    c: int,
    w: int,
    start: int,
    vals: Seq<i64>,
    n: int,
)
    requires
        ch >= 1,
        0 <= c < ch,
        row.len() == w * ch,
        0 <= start,
        0 <= n,
        start + n <= w,
    ensures
        weighted_sum(
            Seq::new(((row.len() as int) / ch) as nat, |d: int| row[d * ch + c]),
            start,
            1,
            0,
            vals,
            n,
        ) == weighted_sum(row, start, ch, c, vals, n),
    decreases n,
{
    if n > 0 {
        lemma_window_of_channel(row, ch, c, w, start, vals, n - 1);
        lemma_fundamental_div_mod_converse_div(w * ch, ch, w, 0);
        let e = Seq::new(((row.len() as int) / ch) as nat, |d: int| row[d * ch + c]);
        assert(0 <= start + n - 1 < w);
        assert(e[start + n - 1] == row[(start + n - 1) * ch + c]);
        assert((start + n - 1) * 1 + 0 == start + n - 1);
    }
}

/// Channel-independence law: taking one channel of the horizontal pass's
/// result equals running the horizontal pass on that channel alone, for the
/// same coefficients; so multi-channel resizing decomposes into independent
/// single-channel resizes and recomposes exactly.
pub proof fn lemma_channel_independence(
    src: Seq<Seq<i64>>,
    chunks: Seq<CoefficientsChunk>,
    ch: int,
    c: int,
    lo: int,
    hi: int,
    offset: int,
    w: int,
    h: int,
)
    requires
        ch >= 1,
        0 <= c < ch,
        h >= 1,
        w >= 1,
        0 <= offset,
        offset + h <= src.len(),
        forall|r: int| 0 <= r < src.len() ==> (#[trigger] src[r]).len() == w * ch,
        chunks_fit(chunks, w),
    ensures
        channel_grid(horiz_result(src, chunks, offset, ch, lo, hi, h), ch, c) == horiz_result(
            channel_grid(src, ch, c),
            chunks,
            offset,
            1,
            lo,
            hi,
            h,
        ),
{
    let full = horiz_result(src, chunks, offset, ch, lo, hi, h);
    let lhs = channel_grid(full, ch, c);
    let esrc = channel_grid(src, ch, c);
    let rhs = horiz_result(esrc, chunks, offset, 1, lo, hi, h);
    assert forall|r: int| 0 <= r < h implies lhs[r] =~= rhs[r] by {
        assert(full[r].len() == chunks.len() * ch);
        lemma_fundamental_div_mod_converse_div(chunks.len() * ch, ch, chunks.len() as int, 0);
        assert(lhs[r].len() == chunks.len());
        assert(rhs[r].len() == chunks.len() * 1);
        assert forall|d: int| 0 <= d < chunks.len() implies lhs[r][d] == rhs[r][d] by {
            let x = d * ch + c;
            assert(0 <= d * ch + c < chunks.len() * ch) by (nonlinear_arith)
                requires
                    0 <= d < chunks.len(),
                    0 <= c < ch,
                    ch >= 1,
            ;
            lemma_fundamental_div_mod_converse_div(x, ch, d, c);
            lemma_fundamental_div_mod_converse_mod(x, ch, d, c);
            assert(lhs[r][d] == full[r][x]);
            assert(full[r][x] == horiz_cell(src[r + offset], chunks[d], ch, c, lo, hi));
            assert(rhs[r][d] == horiz_cell(esrc[r + offset], chunks[d], 1, 0, lo, hi));
            assert(esrc[r + offset] == Seq::new(
                ((src[r + offset].len() as int) / ch) as nat,
                |dd: int| src[r + offset][dd * ch + c],
            ));
            lemma_window_of_channel(
                src[r + offset],
                ch,
                c,
                w,
                chunks[d].start as int,
                chunks[d].values@,
                chunks[d].values@.len() as int,
            );
        }
    }
    assert(lhs =~~= rhs);
}

} // verus!
