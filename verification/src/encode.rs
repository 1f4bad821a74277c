//! The encoder: from bytes to the channel values of a one-row image.

use crate::bits::{bit_at_index, bit_of};
use crate::channel::{channel_of_bit, BIT_HIGH_VALUE};
use vstd::prelude::*;

verus! {

/// One pixel: its red, green and blue channel values.
#[derive(Clone, Copy, Debug, PartialEq, Eq, Structural)]
pub struct Pixel {
    pub r: u8,
    pub g: u8,
    pub b: u8,
}

/// The number of pixels that carry `byte_count` bytes, three bits to a pixel:
/// the bit count divided by three, rounded up.
pub open spec fn encoded_width(byte_count: nat) -> nat {
    (8 * byte_count + 2) / 3
}

/// The pixel at horizontal position `x` of the image that carries `bytes`:
/// red, green and blue hold the positions `3x`, `3x + 1` and `3x + 2` of the
/// bit stream.
pub open spec fn encoded_pixel(bytes: Seq<u8>, x: int) -> Pixel {
    Pixel {
        r: channel_of_bit(bit_of(bytes, 3 * x)),
        g: channel_of_bit(bit_of(bytes, 3 * x + 1)),
        b: channel_of_bit(bit_of(bytes, 3 * x + 2)),
    }
}

/// The channel values of the image that carries `bytes`, pixel after pixel and
/// red, green, blue within each: the value at position `slot` holds position
/// `slot` of the bit stream, and the positions past the last bit hold 0.
pub open spec fn encoded_channels(bytes: Seq<u8>) -> Seq<u8> {
    Seq::new(
        3 * encoded_width(bytes.len()),
        |slot: int| channel_of_bit(bit_of(bytes, slot)),
    )
}

/// Whether an image for `byte_count` bytes can be held: its channel values in
/// memory, its width in 32 bits.
pub open spec fn fits_image(byte_count: nat) -> bool {
    &&& 3 * encoded_width(byte_count) <= usize::MAX
    &&& encoded_width(byte_count) <= u32::MAX
}

/// The channel value for what the bit stream holds at one position.
fn channel_for_bit(bit: Option<u8>) -> (value: u8)
    requires
        bit matches Some(b) ==> b == 0 || b == 1,
    ensures
        value == channel_of_bit(bit),
{
    match bit {
        Some(b) => b * BIT_HIGH_VALUE,
        None => 0,
    }
}

/// Computes the number of pixels that carry `byte_count` bytes.
pub fn pixel_count(byte_count: usize) -> (width: usize)
    requires
        encoded_width(byte_count as nat) <= usize::MAX,
    ensures
        width == encoded_width(byte_count as nat),
{
    byte_count / 3 * 8 + (byte_count % 3 * 8 + 2) / 3
}

/// Tells whether an image for `byte_count` bytes can be held.
pub fn can_encode(byte_count: usize) -> (fits: bool)
    ensures
        fits == fits_image(byte_count as nat),
{
    let count: u64 = byte_count as u64;
    if count > 1610612735 {
        false
    } else {
        let width: u64 = (8 * count + 2) / 3;
        3 * width <= usize::MAX as u64
    }
}

/// Computes the pixel at horizontal position `x` of the image that carries
/// `bytes`. A channel past the last bit of the stream is 0.
pub fn pixel_at(x: usize, bytes: &[u8]) -> (pixel: Pixel)
    requires
        3 * x + 2 <= usize::MAX,
    ensures
        pixel == encoded_pixel(bytes@, x as int),
{
    let r_bit_index: usize = x * 3;
    let g_bit_index: usize = x * 3 + 1;
    let b_bit_index: usize = x * 3 + 2;

    let r_bit = bit_at_index(r_bit_index, bytes);
    let g_bit = bit_at_index(g_bit_index, bytes);
    let b_bit = bit_at_index(b_bit_index, bytes);

    let r: u8 = channel_for_bit(r_bit);
    let g: u8 = channel_for_bit(g_bit);
    let b: u8 = channel_for_bit(b_bit);

    Pixel { r, g, b }
}

/// Encodes `bytes` as the channel values of a one-row image, pixel after pixel
/// and red, green, blue within each. Every bit of the input takes one channel,
/// 255 for a set bit and 0 for a clear one; the channels left over in the last
/// pixel are 0.
pub fn encode_channels(bytes: &[u8]) -> (channels: Vec<u8>)
    requires
        3 * encoded_width(bytes@.len()) <= usize::MAX,
    ensures
        channels@ == encoded_channels(bytes@),
        channels@.len() == 3 * encoded_width(bytes@.len()),
{
    let width: usize = pixel_count(bytes.len());
    let mut channels: Vec<u8> = Vec::new();
    let mut x: usize = 0;

    while x < width
        invariant
            x <= width,
            width == encoded_width(bytes@.len()),
            3 * width <= usize::MAX,
            channels@.len() == 3 * x,
            forall|slot: int|
                0 <= slot < 3 * x ==> #[trigger] channels@[slot] == channel_of_bit(
                    bit_of(bytes@, slot),
                ),
        decreases width - x,
    {
        let pixel = pixel_at(x, bytes);
        channels.push(pixel.r);
        channels.push(pixel.g);
        channels.push(pixel.b);
        x = x + 1;
    }
    channels
}

} // verus!
