//! Resampling of raster images between arbitrary dimensions by separable
//! convolution: an image container that validates raw buffers against a fixed
//! catalogue of pixel encodings, a typed row-major pixel store, a model of
//! precomputed finite-support filter weights, and a convolution engine that
//! applies those weights along each axis with fixed-point accumulation.

pub mod coefficients;
pub mod convolution;
pub mod errors;
pub mod image;
pub mod inner_image;
pub mod laws;
pub mod pixels;

pub use coefficients::{Coefficients, CoefficientsChunk};
pub use convolution::CpuExtensions;
pub use errors::{ImageBufferError, InvalidBufferSizeError};
pub use image::Image;
pub use inner_image::InnerImage;
pub use pixels::PixelType;
