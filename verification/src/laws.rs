//! What holds of the codec as a whole: that decoding undoes encoding, what
//! becomes of the padding, and what a decoded byte owes to each channel value.

use crate::bits::{bit_in_byte, bit_of, lemma_bit_in_byte_is_binary};
use crate::channel::{channel_of_bit, threshold_bit, BIT_HIGH_VALUE};
use crate::decode::{decoded_byte, decoded_bytes, group_value};
use crate::encode::{encoded_channels, encoded_width};
use crate::raster::{carries, image_height, image_width, rgb8_samples};
use image::DynamicImage;
use vstd::arithmetic::power2::lemma2_to64;
use vstd::prelude::*;

verus! {

/// Reading back the channel written for a bit gives that bit, and reading
/// back a padding channel gives 0.
pub proof fn lemma_threshold_inverts_channel(bit: u8)
    requires
        bit == 0 || bit == 1,
    ensures
        channel_of_bit(Some(bit)) == bit * BIT_HIGH_VALUE,
        threshold_bit(channel_of_bit(Some(bit))) == bit,
        threshold_bit(channel_of_bit(None)) == 0,
{
}

/// A byte built from eight bits, each at its place, holds each of them at
/// that place.
proof fn lemma_bits_at_their_places(
    b0: u8,
    b1: u8,
    b2: u8,
    b3: u8,
    b4: u8,
    b5: u8,
    b6: u8,
    b7: u8,
    byte: u8,
)
    by (bit_vector)
    requires
        b0 <= 1 && b1 <= 1 && b2 <= 1 && b3 <= 1 && b4 <= 1 && b5 <= 1 && b6 <= 1 && b7 <= 1,
        byte == 128 * b0 + 64 * b1 + 32 * b2 + 16 * b3 + 8 * b4 + 4 * b5 + 2 * b6 + b7,
    ensures
        (byte >> 7u8) & 1 == b0,
        (byte >> 6u8) & 1 == b1,
        (byte >> 5u8) & 1 == b2,
        (byte >> 4u8) & 1 == b3,
        (byte >> 3u8) & 1 == b4,
        (byte >> 2u8) & 1 == b5,
        (byte >> 1u8) & 1 == b6,
        (byte >> 0u8) & 1 == b7,
{
}

/// Each bit of a decoded byte is what the threshold makes of the channel value
/// at the same position of the group: a value of 128 or more gives 1, a value
/// of 127 or less gives 0.
pub proof fn lemma_decoded_byte_bits(group: Seq<u8>, offset: u8)
    requires
        offset < 8,
    ensures
        bit_in_byte(decoded_byte(group), offset) == threshold_bit(group[offset as int]),
{
    reveal_with_fuel(group_value, 9);
    lemma2_to64();
    lemma_bits_at_their_places(
        threshold_bit(group[0]),
        threshold_bit(group[1]),
        threshold_bit(group[2]),
        threshold_bit(group[3]),
        threshold_bit(group[4]),
        threshold_bit(group[5]),
        threshold_bit(group[6]),
        threshold_bit(group[7]),
        decoded_byte(group),
    );
}

/// Two bytes that agree in all eight bits are the same byte.
pub proof fn lemma_byte_by_its_bits(first: u8, second: u8)
    requires
        forall|offset: u8| offset < 8 ==> bit_in_byte(first, offset) == bit_in_byte(second, offset),
    ensures
        first == second,
{
    assert(bit_in_byte(first, 0) == bit_in_byte(second, 0));
    assert(bit_in_byte(first, 1) == bit_in_byte(second, 1));
    assert(bit_in_byte(first, 2) == bit_in_byte(second, 2));
    assert(bit_in_byte(first, 3) == bit_in_byte(second, 3));
    assert(bit_in_byte(first, 4) == bit_in_byte(second, 4));
    assert(bit_in_byte(first, 5) == bit_in_byte(second, 5));
    assert(bit_in_byte(first, 6) == bit_in_byte(second, 6));
    assert(bit_in_byte(first, 7) == bit_in_byte(second, 7));
    assert(first == second) by (bit_vector)
        requires
            (first >> 7u8) & 1 == (second >> 7u8) & 1,
            (first >> 6u8) & 1 == (second >> 6u8) & 1,
            (first >> 5u8) & 1 == (second >> 5u8) & 1,
            (first >> 4u8) & 1 == (second >> 4u8) & 1,
            (first >> 3u8) & 1 == (second >> 3u8) & 1,
            (first >> 2u8) & 1 == (second >> 2u8) & 1,
            (first >> 1u8) & 1 == (second >> 1u8) & 1,
            (first >> 0u8) & 1 == (second >> 0u8) & 1,
    ;
}

/// Decoding reads the bit stream through the threshold: wherever the decoded
/// bytes have a bit, it is what the threshold makes of the channel value at
/// the same position, and they have a bit for every position of a full group
/// of eight channel values.
pub proof fn lemma_decoded_bits(channels: Seq<u8>, position: int)
    requires
        0 <= position < 8 * (channels.len() / 8),
    ensures
        bit_of(decoded_bytes(channels), position) == Some(threshold_bit(channels[position])),
{
    let k = position / 8;
    let offset = (position % 8) as u8;
    let group = channels.subrange(8 * k, 8 * k + 8);
    assert(decoded_bytes(channels)[k] == decoded_byte(group));
    lemma_decoded_byte_bits(group, offset);
    assert(group[offset as int] == channels[position]);
}

/// Decoding depends on each channel value only through the threshold: two
/// streams of one length whose values lie on the same side of it, position by
/// position, decode to the same bytes.
pub proof fn lemma_decoding_tolerates_noise(clean: Seq<u8>, noisy: Seq<u8>)
    requires
        clean.len() == noisy.len(),
        forall|position: int|
            0 <= position < clean.len() ==> threshold_bit(#[trigger] clean[position])
                == threshold_bit(noisy[position]),
    ensures
        decoded_bytes(clean) == decoded_bytes(noisy),
{
    assert forall|k: int| 0 <= k < clean.len() / 8 implies decoded_bytes(clean)[k]
        == decoded_bytes(noisy)[k] by {
        let first = decoded_bytes(clean)[k];
        let second = decoded_bytes(noisy)[k];
        assert forall|offset: u8| offset < 8 implies bit_in_byte(first, offset) == bit_in_byte(
            second,
            offset,
        ) by {
            lemma_decoded_byte_bits(clean.subrange(8 * k, 8 * k + 8), offset);
            lemma_decoded_byte_bits(noisy.subrange(8 * k, 8 * k + 8), offset);
            assert(clean.subrange(8 * k, 8 * k + 8)[offset as int] == clean[8 * k + offset]);
            assert(noisy.subrange(8 * k, 8 * k + 8)[offset as int] == noisy[8 * k + offset]);
        }
        lemma_byte_by_its_bits(first, second);
    }
    assert(decoded_bytes(clean) =~= decoded_bytes(noisy));
}

/// Decoding undoes encoding: the channel values that carry a byte sequence
/// decode to that sequence, whatever its length. In particular this holds
/// where the bits fill the last pixel and nothing is padded.
pub proof fn lemma_round_trip(bytes: Seq<u8>)
    ensures
        decoded_bytes(encoded_channels(bytes)) == bytes,
{
    let channels = encoded_channels(bytes);
    assert(channels.len() / 8 == bytes.len());
    assert forall|k: int| 0 <= k < bytes.len() implies decoded_bytes(channels)[k] == bytes[k] by {
        let decoded = decoded_bytes(channels)[k];
        let group = channels.subrange(8 * k, 8 * k + 8);
        assert forall|offset: u8| offset < 8 implies bit_in_byte(decoded, offset) == bit_in_byte(
            bytes[k],
            offset,
        ) by {
            lemma_decoded_byte_bits(group, offset);
            let position = 8 * k + offset;
            assert(group[offset as int] == channels[position]);
            assert(bit_of(bytes, position) == Some(bit_in_byte(bytes[k], offset)));
            lemma_bit_in_byte_is_binary(bytes[k], offset);
            lemma_threshold_inverts_channel(bit_in_byte(bytes[k], offset));
        }
        lemma_byte_by_its_bits(decoded, bytes[k]);
    }
    assert(decoded_bytes(channels) =~= bytes);
}

/// The padding is lost on the way back, and only the padding. The channels
/// past the last bit are 0 and there are fewer of them than a pixel has, so
/// they never fill a group of eight: decoding drops them and gives as many
/// bytes as went in, which is the channel count divided by eight, rounded
/// down.
pub proof fn lemma_padding_discarded(bytes: Seq<u8>)
    ensures
        forall|slot: int|
            8 * bytes.len() <= slot < 3 * encoded_width(bytes.len()) ==> #[trigger] encoded_channels(
                bytes,
            )[slot] == 0,
        0 <= 3 * encoded_width(bytes.len()) - 8 * bytes.len() < 3,
        decoded_bytes(encoded_channels(bytes)).len() == (3 * encoded_width(bytes.len())) / 8,
        decoded_bytes(encoded_channels(bytes)).len() == bytes.len(),
{
}

/// Encoding is a function of the bytes alone: equal byte sequences give equal
/// widths and equal channel values.
pub proof fn lemma_encoding_deterministic(first: Seq<u8>, second: Seq<u8>)
    requires
        first == second,
    ensures
        encoded_width(first.len()) == encoded_width(second.len()),
        encoded_channels(first) == encoded_channels(second),
{
}

/// Two images that carry the same bytes have the same width, the same height
/// and the same samples: they are alike pixel for pixel.
pub proof fn lemma_same_bytes_same_pixels(bytes: Seq<u8>, first: DynamicImage, second: DynamicImage)
    requires
        carries(first, bytes),
        carries(second, bytes),
    ensures
        image_width(first) == image_width(second),
        image_height(first) == image_height(second),
        rgb8_samples(first) == rgb8_samples(second),
{
}

/// The samples of an image that carries a byte sequence decode to that
/// sequence.
pub proof fn lemma_image_round_trip(image: DynamicImage, bytes: Seq<u8>)
    requires
        carries(image, bytes),
    ensures
        decoded_bytes(rgb8_samples(image)) == bytes,
{
    lemma_round_trip(bytes);
}

} // verus!
