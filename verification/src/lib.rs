//! A codec that carries bytes in the colour channels of a one-row RGB image.
//!
//! Every bit of the payload, most significant bit of each byte first, takes one
//! channel of one pixel: a set bit becomes the full intensity 255, a clear bit
//! becomes 0. Reading the image back compares each channel with the midpoint of
//! its range, so that the payload survives the small errors of a lossy format.

pub mod bits;
pub mod channel;
pub mod decode;
pub mod encode;
pub mod laws;
pub mod raster;

pub use bits::bit_at_index;
pub use channel::{BIT_HIGH_VALUE, BIT_HIGH_VALUE_THRESHOLD};
pub use decode::{decode_channels, decode_group};
pub use encode::{can_encode, encode_channels, pixel_at, pixel_count, Pixel};
pub use raster::{bytes_to_image, image_to_bytes};
