//! Precomputed filter weights for one destination axis.
//!
//! A resampling filter has finite support, so each destination index needs
//! only a short window of source indices. The builder (an external
//! collaborator) emits one chunk per destination index: the first source
//! index with non-negligible weight and the weights for the consecutive
//! source indices from there. Weights are fixed-point: the real weight `w`
//! is stored as the integer nearest to `w * WEIGHT_ONE`.

use vstd::prelude::*;

verus! {

/// Fixed-point scale of one filter weight: a real weight of `1.0` is stored
/// as this value.
pub const WEIGHT_ONE: i64 = 0x4000_0000;

/// Half of [`WEIGHT_ONE`]; the bias that turns truncating division by
/// `WEIGHT_ONE` into round-to-nearest.
pub const WEIGHT_HALF: i64 = 0x2000_0000;

/// The filter window for one destination index: weights for the consecutive
/// source indices `start`, `start + 1`, ... `start + values.len() - 1`.
pub struct CoefficientsChunk {
    /// First source index the window covers.
    pub start: u32,
    /// Fixed-point weights, one per covered source index.
    pub values: Vec<i64>,
}

/// Precomputed weights for a whole destination axis: exactly one chunk per
/// destination index.
pub struct Coefficients {
    /// Chunk `d` holds the window for destination index `d`.
    pub chunks: Vec<CoefficientsChunk>,
}

/// True when the window of `chunk` lies inside a source axis of length
/// `src_len`.
pub open spec fn chunk_fits(chunk: CoefficientsChunk, src_len: int) -> bool {
    chunk.start + chunk.values@.len() <= src_len
}

/// True when every window in `chunks` lies inside a source axis of length
/// `src_len`. The builder establishes this; the engine assumes it.
pub open spec fn chunks_fit(chunks: Seq<CoefficientsChunk>, src_len: int) -> bool {
    forall|d: int| 0 <= d < chunks.len() ==> chunk_fits(#[trigger] chunks[d], src_len)
}

impl Coefficients {
    /// The per-destination-index windows, in destination order.
    pub fn get_chunks(&self) -> (r: &Vec<CoefficientsChunk>)
        ensures
            r@ == self.chunks@,
    {
        &self.chunks
    }

    /// Checks every window against a source axis of length `src_len`: the
    /// engine's precondition, validated once at pass entry instead of per
    /// pixel.
    pub fn fits(&self, src_len: u32) -> (r: bool)
        ensures
            r == chunks_fit(self.chunks@, src_len as int),
    {
        let n: usize = self.chunks.len();
        let mut d: usize = 0;
        while d < n
            invariant
                d <= n,
                n == self.chunks@.len(),
                forall|i: int|
                    0 <= i < d ==> chunk_fits(#[trigger] self.chunks@[i], src_len as int),
            decreases n - d,
        {
            let c = &self.chunks[d];
            if (c.start as u128) + (c.values.len() as u128) > src_len as u128 {
                proof {
                    assert(!chunk_fits(self.chunks@[d as int], src_len as int));
                }
                return false;
            }
            d += 1;
        }
        true
    }
}

} // verus!
