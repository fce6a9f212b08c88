//! Average colour of a raster image, and a light/dark verdict on it.
//!
//! Image bytes are decoded to a grid of 8-bit RGB pixels, each channel is
//! averaged with integer arithmetic, and the resulting colour can be
//! classified as light or dark by its BT.709 luma.
//!
//! Before the decoder sees the bytes, the JPEG segment structure is read:
//! a lossless JPEG whose sample precision the decoder's buffer cannot hold
//! is refused, because the decoder does not return on it.

pub mod average;
pub mod codec;
pub mod color;
pub mod error;
pub mod format;
pub mod pixel;

pub use color::AverageColor;
pub use error::{Error, ErrorKind};
pub use pixel::{Channel, Rgb8};
