//! The codec on images of the `image` crate: bytes into a `DynamicImage` and
//! back.
//!
//! Verus does not look inside a `DynamicImage`. What the contracts need of one
//! has a name here: its width, its height and its 8-bit RGB samples. The two
//! functions that build an image and read one are the only code of this
//! library that is believed and not proved.

use crate::decode::{decode_channels, decoded_bytes};
use crate::encode::{encode_channels, encoded_channels, encoded_width, fits_image, pixel_count};
use image::{DynamicImage, RgbImage};
use vstd::prelude::*;

verus! {

/// Makes `image::DynamicImage` known to Verus as a type it cannot look into.
#[verifier::external_type_specification]
#[verifier::external_body]
pub struct ExDynamicImage(image::DynamicImage);

/// The width of an image in pixels, as `DynamicImage::width` gives it.
pub uninterp spec fn image_width(image: DynamicImage) -> nat;

/// The height of an image in pixels, as `DynamicImage::height` gives it.
pub uninterp spec fn image_height(image: DynamicImage) -> nat;

/// The samples of an image as 8-bit RGB, as `DynamicImage::to_rgb8` followed
/// by `into_raw` gives them: row after row from the top, pixel after pixel
/// from the left, and red, green, blue within each pixel.
pub uninterp spec fn rgb8_samples(image: DynamicImage) -> Seq<u8>;

/// Builds an 8-bit RGB image over the given samples: `RgbImage::from_raw`,
/// wrapped as `DynamicImage::ImageRgb8`.
///
/// `from_raw` takes the buffer as it is and answers `None` where the buffer is
/// shorter than three samples for each of `width * height` pixels, or where
/// that count does not fit in a `usize`. The image has the width and height
/// asked for, and reading an `ImageRgb8` back as 8-bit RGB clones its buffer,
/// so its samples are the ones given.
#[verifier::external_body]
fn rgb8_image_from_samples(width: u32, height: u32, samples: Vec<u8>) -> (built: Option<DynamicImage>)
    ensures
        built is Some <==> (3 * width <= usize::MAX && 3 * width * height <= samples@.len()),
        built matches Some(image) ==> (image_width(image) == width && image_height(image) == height
            && rgb8_samples(image) == samples@),
{
    RgbImage::from_raw(width, height, samples).map(DynamicImage::ImageRgb8)
}

/// Reads the samples of an image as 8-bit RGB: `DynamicImage::to_rgb8`, then
/// `into_raw` on the buffer it returns. The result is the value that
/// `rgb8_samples` names.
#[verifier::external_body]
fn rgb8_samples_of(image: &DynamicImage) -> (samples: Vec<u8>)
    ensures
        samples@ == rgb8_samples(*image),
{
    image.to_rgb8().into_raw()
}

/// Whether `image` is the image that carries `bytes`: one row, as wide as the
/// bits need at three to a pixel, with the encoded channel values as samples.
pub open spec fn carries(image: DynamicImage, bytes: Seq<u8>) -> bool {
    &&& image_width(image) == encoded_width(bytes.len())
    &&& image_height(image) == 1
    &&& rgb8_samples(image) == encoded_channels(bytes)
}

/// Converts the given bytes into an image, where each byte is stored in 8
/// subpixels, so that the first byte is spread out over the first 3 pixels.
/// A high bit sets its subpixel to 255, a low bit sets it to 0.
///
/// If the bytes do not fill an exact number of pixels, the remaining
/// subpixels of the last pixel are 0. The value `0b0101_0101` is stored as
/// the 3 pixels `#00FF00 #FF00FF #00FF00`.
pub fn bytes_to_image(bytes: &[u8]) -> (image: DynamicImage)
    requires
        fits_image(bytes@.len()),
    ensures
        carries(image, bytes@),
{
    let image_width: u32 = pixel_count(bytes.len()) as u32;
    let image_height: u32 = 1;
    let samples = encode_channels(bytes);

    rgb8_image_from_samples(image_width, image_height, samples).unwrap()
}

/// Reads the bytes that an image carries: its subpixels as 8-bit RGB, taken
/// in chunks of 8, each chunk one byte. A subpixel above the threshold is a 1,
/// any other a 0. Subpixels after the last full chunk are dropped.
pub fn image_to_bytes(image: DynamicImage) -> (bytes: Vec<u8>)
    ensures
        bytes@ == decoded_bytes(rgb8_samples(image)),
{
    let samples = rgb8_samples_of(&image);
    decode_channels(samples.as_slice())
}

} // verus!
