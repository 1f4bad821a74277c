//! The bit stream of a byte sequence: eight bits per byte, the most significant
//! bit of each byte first.

use vstd::prelude::*;

verus! {

/// Bit `offset` of `byte`, where offset 0 is the most significant bit and
/// offset 7 the least significant one.
pub open spec fn bit_in_byte(byte: u8, offset: u8) -> u8 {
    (byte >> ((7 - offset) as u8)) & 1
}

/// The bit at position `index` of the bit stream of `bytes`, or `None` where
/// the stream has no such position.
pub open spec fn bit_of(bytes: Seq<u8>, index: int) -> Option<u8> {
    if 0 <= index < 8 * bytes.len() {
        Some(bit_in_byte(bytes[index / 8], (index % 8) as u8))
    } else {
        None
    }
}

/// A bit is 0 or 1.
pub proof fn lemma_bit_in_byte_is_binary(byte: u8, offset: u8)
    requires
        offset < 8,
    ensures
        bit_in_byte(byte, offset) == 0 || bit_in_byte(byte, offset) == 1,
{
    assert(((byte >> ((7 - offset) as u8)) & 1) == 0 || ((byte >> ((7 - offset) as u8)) & 1) == 1)
        by (bit_vector)
        requires
            offset < 8,
    ;
}

/// Returns the bit at `bit_index` in the bit stream of `bytes`, and `None`
/// where the index lies past the last bit. `None` is not a bit: a caller can
/// tell a position outside the stream from a position that holds 0.
pub fn bit_at_index(bit_index: usize, bytes: &[u8]) -> (bit: Option<u8>)
    ensures
        bit == bit_of(bytes@, bit_index as int),
        bit is None <==> bit_index >= 8 * bytes@.len(),
        bit matches Some(value) ==> value == 0 || value == 1,
{
    let byte_index: usize = bit_index / 8;

    if bytes.len() > byte_index {
        let byte: u8 = bytes[byte_index];
        let byte_bit_index: u8 = (bit_index % 8) as u8;
        let bit_shift: u8 = 7 - byte_bit_index;
        let bit_value: u8 = (byte >> bit_shift) & 1;
        proof {
            lemma_bit_in_byte_is_binary(byte, byte_bit_index);
        }
        Some(bit_value)
    } else {
        None
    }
}

} // verus!
