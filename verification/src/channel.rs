//! How one bit stands in one colour channel, and how a channel is read back.

use vstd::prelude::*;

verus! {

/// The channel value that carries a set bit.
pub const BIT_HIGH_VALUE: u8 = 255;

/// The highest channel value that still reads as a clear bit: half of the
/// full intensity. Lossy formats disturb channel values, and the midpoint
/// leaves either bit the widest margin.
pub const BIT_HIGH_VALUE_THRESHOLD: u8 = BIT_HIGH_VALUE / 2;

/// The channel value for one position of the bit stream: full intensity for a
/// set bit, nothing for a clear bit, and nothing for a position past the end
/// of the stream. For a bit this is the bit times `BIT_HIGH_VALUE`.
pub open spec fn channel_of_bit(bit: Option<u8>) -> u8 {
    match bit {
        Some(value) => if value == 1 { BIT_HIGH_VALUE } else { 0 },
        None => 0,
    }
}

/// The bit that a channel value stands for: 1 strictly above the threshold,
/// 0 at the threshold and below.
pub open spec fn threshold_bit(value: u8) -> u8 {
    if value > BIT_HIGH_VALUE_THRESHOLD {
        1
    } else {
        0
    }
}

} // verus!
