//! Errors raised at image-construction time.
//!
//! Both errors concern a caller-supplied buffer and are raised only while an
//! image is being constructed; no operation after construction can fail.

use vstd::prelude::*;

verus! {

/// Why a caller-supplied byte buffer was rejected.
#[derive(Clone, Copy, Debug, PartialEq, Eq, Structural)]
pub enum ImageBufferError {
    /// The buffer's length is not `width * height * pixel_size`.
    InvalidBufferSize,
    /// The pixel encoding needs scalars wider than one byte and the buffer's
    /// base address is not a multiple of that scalar width.
    InvalidBufferAlignment,
}

/// A caller-supplied typed buffer held the wrong number of elements. Typed
/// buffers are aligned by construction, so size is the only thing that can
/// be wrong with them.
#[derive(Clone, Copy, Debug, PartialEq, Eq, Structural)]
pub struct InvalidBufferSizeError;

impl ImageBufferError {
    /// A short description of the error.
    pub fn message(&self) -> (r: &'static str)
        ensures
            self is InvalidBufferSize ==> r@ == "invalid buffer size"@,
            self is InvalidBufferAlignment ==> r@ == "invalid buffer alignment"@,
    {
        match self {
            ImageBufferError::InvalidBufferSize => "invalid buffer size",
            ImageBufferError::InvalidBufferAlignment => "invalid buffer alignment",
        }
    }
}

} // verus!
