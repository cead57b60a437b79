//! IEEE 754 numbers by their bit patterns.
//!
//! A 64-bit float is one sign bit, eleven exponent bits and fifty-two fraction
//! bits. Where all exponent bits are set it is an infinity (no fraction bit
//! set) or not a number.

use vstd::prelude::*;

verus! {

/// The pattern of positive infinity.
pub const INFINITY: u64 = 0x7ff0_0000_0000_0000;

/// The pattern whose only bit is the sign.
pub const SIGN: u64 = 0x8000_0000_0000_0000;

/// The pattern without its sign bit.
pub open spec fn magnitude(bits: u64) -> int {
    bits as int % SIGN as int
}

/// Whether the pattern is neither an infinity nor not a number.
pub open spec fn is_finite(bits: u64) -> bool {
    magnitude(bits) < INFINITY
}

/// Whether the pattern is not a number.
pub open spec fn is_nan(bits: u64) -> bool {
    magnitude(bits) > INFINITY
}

/// A number that orders the patterns as the floats are ordered. Both zeros
/// come to the same place.
pub open spec fn rank(bits: u64) -> int {
    if bits >= SIGN {
        -magnitude(bits)
    } else {
        magnitude(bits)
    }
}

/// Whether the first float is greater than or equal to the second. What is
/// not a number compares with nothing.
pub open spec fn is_at_least(left: u64, right: u64) -> bool {
    !is_nan(left) && !is_nan(right) && rank(left) >= rank(right)
}

/// Whether a float is finite.
pub fn finite(bits: u64) -> (yes: bool)
    ensures
        yes == is_finite(bits),
{
    bits % SIGN < INFINITY
}

/// Compares two floats.
pub fn at_least(left: u64, right: u64) -> (yes: bool)
    ensures
        yes == is_at_least(left, right),
{
    let left_size = left % SIGN;
    let right_size = right % SIGN;
    if left_size > INFINITY || right_size > INFINITY {
        false
    } else if left >= SIGN {
        if right >= SIGN {
            left_size <= right_size
        } else {
            left_size == 0 && right_size == 0
        }
    } else {
        right >= SIGN || left_size >= right_size
    }
}

/// The bytes of a 32-bit pattern, the lowest first.
pub open spec fn le_bytes(bits: u32) -> Seq<u8> {
    seq![
        (bits % 0x100) as u8,
        (bits / 0x100 % 0x100) as u8,
        (bits / 0x1_0000 % 0x100) as u8,
        (bits / 0x100_0000) as u8,
    ]
}

/// The bytes of several 32-bit patterns, one after the other.
pub open spec fn le_bytes_of(singles: Seq<u32>) -> Seq<u8>
    decreases singles.len(),
{
    if singles.len() == 0 {
        seq![]
    } else {
        le_bytes_of(singles.drop_last()) + le_bytes(singles.last())
    }
}

/// Writes an embedding, given by the patterns of its 32-bit floats, as the
/// little-endian bytes of a Redis VECTOR field.
pub fn embedding_to_bytes(singles: &Vec<u32>) -> (bytes: Vec<u8>)
    ensures
        bytes@ == le_bytes_of(singles@),
{
    let mut bytes: Vec<u8> = Vec::new();
    for i in 0..singles.len()
        invariant
            bytes@ == le_bytes_of(singles@.take(i as int)),
    {
        let bits = singles[i];
        let ghost before = bytes@;
        bytes.push((bits % 0x100) as u8);
        bytes.push((bits / 0x100 % 0x100) as u8);
        bytes.push((bits / 0x1_0000 % 0x100) as u8);
        bytes.push((bits / 0x100_0000) as u8);
        assert(bytes@ =~= before + le_bytes(bits));
        assert(singles@.take(i + 1).drop_last() =~= singles@.take(i as int));
    }
    assert(singles@.take(singles@.len() as int) =~= singles@);
    bytes
}

/// The byte string of an embedding has four bytes for each of its numbers.
pub proof fn embedding_length(singles: Seq<u32>)
    ensures
        le_bytes_of(singles).len() == 4 * singles.len(),
    decreases singles.len(),
{
    if singles.len() > 0 {
        embedding_length(singles.drop_last());
    }
}

} // verus!
