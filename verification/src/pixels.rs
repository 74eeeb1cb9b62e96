//! The fixed catalogue of pixel encodings.
//!
//! Each variant fixes how many scalar channels a pixel has, how wide one
//! scalar is in bytes, and therefore how many bytes one pixel occupies and
//! what alignment a raw byte buffer must satisfy to be reinterpreted as
//! pixels of that encoding.

use vstd::prelude::*;

verus! {

/// The pixel encodings the library supports.
///
/// The suffix names the scalar layout: `U8x3` is three unsigned bytes per
/// pixel, `U16` one 16-bit scalar, and so on. `F32` pixels are carried as raw
/// 32-bit bit patterns by the container; the integer convolution engine does
/// not operate on them.
#[derive(Clone, Copy, Debug, PartialEq, Eq, Structural)]
pub enum PixelType {
    /// One unsigned byte per pixel.
    U8,
    /// One unsigned 16-bit scalar per pixel.
    U16,
    /// Three unsigned bytes per pixel.
    U8x3,
    /// Three unsigned 16-bit scalars per pixel.
    U16x3,
    /// Four unsigned bytes per pixel.
    U8x4,
    /// One signed 32-bit scalar per pixel.
    I32,
    /// One 32-bit floating-point scalar per pixel, held as its bit pattern.
    F32,
}

impl PixelType {
    /// Number of scalar channels in one pixel.
    pub open spec fn spec_channels(self) -> nat {
        match self {
            PixelType::U8 => 1,
            PixelType::U16 => 1,
            PixelType::U8x3 => 3,
            PixelType::U16x3 => 3,
            PixelType::U8x4 => 4,
            PixelType::I32 => 1,
            PixelType::F32 => 1,
        }
    }

    /// Width in bytes of one scalar channel; also the alignment a raw byte
    /// buffer must satisfy for this encoding.
    pub open spec fn spec_scalar_size(self) -> nat {
        match self {
            PixelType::U8 => 1,
            PixelType::U16 => 2,
            PixelType::U8x3 => 1,
            PixelType::U16x3 => 2,
            PixelType::U8x4 => 1,
            PixelType::I32 => 4,
            PixelType::F32 => 4,
        }
    }

    /// Bytes occupied by one whole pixel.
    pub open spec fn spec_size(self) -> nat {
        self.spec_channels() * self.spec_scalar_size()
    }

    /// Smallest value a scalar of this encoding may hold.
    pub open spec fn spec_min_scalar(self) -> int {
        match self {
            PixelType::I32 => -0x8000_0000,
            _ => 0,
        }
    }

    /// Largest value a scalar of this encoding may hold.
    pub open spec fn spec_max_scalar(self) -> int {
        match self {
            PixelType::U8 => 0xFF,
            PixelType::U16 => 0xFFFF,
            PixelType::U8x3 => 0xFF,
            PixelType::U16x3 => 0xFFFF,
            PixelType::U8x4 => 0xFF,
            PixelType::I32 => 0x7FFF_FFFF,
            PixelType::F32 => 0xFFFF_FFFF,
        }
    }

    /// Whether the scalar is a floating-point bit pattern rather than an
    /// integer sample value.
    pub open spec fn spec_is_float(self) -> bool {
        self == PixelType::F32
    }

    /// Number of scalar channels in one pixel.
    pub fn channels(self) -> (r: u32)
        ensures
            r == self.spec_channels(),
    {
        match self {
            PixelType::U8 => 1,
            PixelType::U16 => 1,
            PixelType::U8x3 => 3,
            PixelType::U16x3 => 3,
            PixelType::U8x4 => 4,
            PixelType::I32 => 1,
            PixelType::F32 => 1,
        }
    }

    /// Width in bytes of one scalar channel.
    pub fn scalar_size(self) -> (r: u32)
        ensures
            r == self.spec_scalar_size(),
    {
        match self {
            PixelType::U8 => 1,
            PixelType::U16 => 2,
            PixelType::U8x3 => 1,
            PixelType::U16x3 => 2,
            PixelType::U8x4 => 1,
            PixelType::I32 => 4,
            PixelType::F32 => 4,
        }
    }

    /// Bytes occupied by one whole pixel.
    pub fn size(self) -> (r: u32)
        ensures
            r == self.spec_size(),
    {
        self.channels() * self.scalar_size()
    }

    /// Smallest value a scalar of this encoding may hold.
    pub fn min_scalar(self) -> (r: i64)
        ensures
            r == self.spec_min_scalar(),
    {
        match self {
            PixelType::I32 => -0x8000_0000,
            _ => 0,
        }
    }

    /// Largest value a scalar of this encoding may hold.
    pub fn max_scalar(self) -> (r: i64)
        ensures
            r == self.spec_max_scalar(),
    {
        match self {
            PixelType::U8 => 0xFF,
            PixelType::U16 => 0xFFFF,
            PixelType::U8x3 => 0xFF,
            PixelType::U16x3 => 0xFFFF,
            PixelType::U8x4 => 0xFF,
            PixelType::I32 => 0x7FFF_FFFF,
            PixelType::F32 => 0xFFFF_FFFF,
        }
    }

    /// Whether the scalar is a floating-point bit pattern.
    pub fn is_float(self) -> (r: bool)
        ensures
            r == self.spec_is_float(),
    {
        matches!(self, PixelType::F32)
    }
}

} // verus!
