//! The decoder: from the channel values of an image back to bytes.

use crate::channel::{threshold_bit, BIT_HIGH_VALUE_THRESHOLD};
use vstd::arithmetic::power2::{lemma2_to64, lemma_pow2_unfold, pow2};
use vstd::bits::lemma_u8_shl_is_mul;
use vstd::prelude::*;
use vstd::slice::slice_subrange;

verus! {

/// The number spelled by the first `count` channel values of `group`, each
/// read through the threshold and standing at its place in a byte whose most
/// significant bit comes first: position `i` weighs `2^(7 - i)`.
pub open spec fn group_value(group: Seq<u8>, count: nat) -> nat
    recommends
        count <= 8,
        count <= group.len(),
    decreases count,
{
    if count == 0 {
        0
    } else {
        let place = pow2((8 - count) as nat);
        let rest = group_value(group, (count - 1) as nat);
        if threshold_bit(group[count - 1]) == 1 {
            rest + place
        } else {
            rest
        }
    }
}

/// The byte that a group of eight channel values decodes to.
pub open spec fn decoded_byte(group: Seq<u8>) -> u8
    recommends
        group.len() == 8,
{
    group_value(group, 8) as u8
}

/// The bytes that a stream of channel values decodes to: one byte for each
/// full group of eight values, in order. Values after the last full group
/// decode to nothing.
pub open spec fn decoded_bytes(channels: Seq<u8>) -> Seq<u8> {
    Seq::new(
        channels.len() / 8,
        |k: int| decoded_byte(channels.subrange(8 * k, 8 * k + 8)),
    )
}

/// The value of the first `count` places, with the weight of the last of them
/// added once more, does not exceed 256. So the value of all eight places fits
/// in a byte, and setting one more bit never overflows it.
pub proof fn lemma_group_value_bound(group: Seq<u8>, count: nat)
    requires
        count <= 8,
    ensures
        group_value(group, count) + pow2((8 - count) as nat) <= 256,
    decreases count,
{
    lemma2_to64();
    if count > 0 {
        lemma_group_value_bound(group, (count - 1) as nat);
        lemma_pow2_unfold((8 - (count - 1)) as nat);
    }
}

/// Decodes one group of eight channel values to a byte. The value at position
/// `i` sets bit `7 - i` of the byte where it lies strictly above the threshold.
pub fn decode_group(group: &[u8]) -> (byte: u8)
    requires
        group@.len() == 8,
    ensures
        byte == decoded_byte(group@),
{
    let mut byte: u8 = 0;
    let mut bit_index: u8 = 0;

    while bit_index < 8
        invariant
            bit_index <= 8,
            group@.len() == 8,
            byte == group_value(group@, bit_index as nat),
        decreases 8 - bit_index,
    {
        if group[bit_index as usize] > BIT_HIGH_VALUE_THRESHOLD {
            let bit_shift: u8 = 7 - bit_index;
            proof {
                lemma_group_value_bound(group@, (bit_index + 1) as nat);
                lemma_u8_shl_is_mul(1, bit_shift);
            }
            byte = byte + (1u8 << bit_shift);
        }
        bit_index = bit_index + 1;
    }
    byte
}

/// Decodes a stream of channel values, taken in the order red, green, blue of
/// each pixel from the first pixel on, to the bytes it carries. Every full
/// group of eight values gives one byte; a shorter rest at the end is dropped.
pub fn decode_channels(channels: &[u8]) -> (bytes: Vec<u8>)
    ensures
        bytes@ == decoded_bytes(channels@),
        bytes@.len() == channels@.len() / 8,
{
    let group_count: usize = channels.len() / 8;
    let mut bytes: Vec<u8> = Vec::new();
    let mut group_index: usize = 0;

    while group_index < group_count
        invariant
            group_index <= group_count,
            group_count == channels@.len() / 8,
            channels@.len() <= usize::MAX,
            bytes@.len() == group_index,
            forall|k: int|
                0 <= k < group_index ==> bytes@[k] == decoded_byte(
                    #[trigger] channels@.subrange(8 * k, 8 * k + 8),
                ),
        decreases group_count - group_index,
    {
        let group = slice_subrange(channels, 8 * group_index, 8 * group_index + 8);
        let byte: u8 = decode_group(group);
        bytes.push(byte);
        group_index = group_index + 1;
    }
    bytes
}

} // verus!
