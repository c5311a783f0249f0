//! Order keys for ratings.
//!
//! Scores and heats are 32-bit IEEE-754 numbers. The library never computes
//! with them: it keeps each one as an unsigned key whose integer order is the
//! IEEE total order of the number, so that ranking is integer comparison. The
//! key is a bijection of the bit pattern, so nothing of the number is lost.

use vstd::prelude::*;

verus! {

/// Value of the sign bit of a 32-bit pattern.
pub const SIGN_BIT: u32 = 0x8000_0000;

/// Position of a bit pattern in the IEEE total order, as an integer:
/// patterns with the sign bit clear are ranked by their value, patterns with
/// the sign bit set below all of them, by decreasing magnitude. For patterns
/// of non-NaN numbers this is the order of the numbers, with negative zero
/// just below positive zero.
pub open spec fn total_rank(bits: u32) -> int {
    if bits >= SIGN_BIT {
        0x7fff_ffff - bits as int
    } else {
        bits as int
    }
}

/// The order key of a bit pattern: its rank shifted into the range of `u32`.
pub open spec fn key_of(bits: u32) -> int {
    total_rank(bits) + SIGN_BIT as int
}

/// The bit pattern with a given order key.
pub open spec fn bits_of(key: u32) -> int {
    if key >= SIGN_BIT {
        key - SIGN_BIT as int
    } else {
        0xffff_ffff - key as int
    }
}

/// Order key of a rating, given the bit pattern of the rating.
pub fn order_key(bits: u32) -> (key: u32)
    ensures
        key as int == key_of(bits),
{
    if bits >= SIGN_BIT {
        0xffff_ffff - bits
    } else {
        bits + SIGN_BIT
    }
}

/// Bit pattern of the rating that has order key `key`.
pub fn rating_bits(key: u32) -> (bits: u32)
    ensures
        bits as int == bits_of(key),
        key_of(bits) == key,
{
    if key >= SIGN_BIT {
        key - SIGN_BIT
    } else {
        0xffff_ffff - key
    }
}

/// Keys compare as the ranks of the patterns they encode.
pub proof fn lemma_order_key_monotone(a: u32, b: u32)
    ensures
        (key_of(a) < key_of(b)) == (total_rank(a) < total_rank(b)),
        (key_of(a) == key_of(b)) == (a == b),
{
}

/// Every key is the key of exactly one pattern, and decoding a key gives that
/// pattern back.
pub proof fn lemma_order_key_roundtrip(bits: u32, key: u32)
    ensures
        0 <= key_of(bits) <= u32::MAX,
        bits_of(key_of(bits) as u32) == bits,
        0 <= bits_of(key) <= u32::MAX,
        key_of(bits_of(key) as u32) == key,
{
}

/// Keys follow the IEEE total order of the patterns: among patterns with the
/// sign bit clear, larger patterns have larger keys; among patterns with it
/// set, larger patterns have smaller keys; every pattern with the sign bit
/// set has a smaller key than every pattern without it; and keys are the
/// values of `u32`, one per pattern.
pub proof fn lemma_order_key_sign_magnitude(a: u32, b: u32)
    ensures
        a < SIGN_BIT && b < SIGN_BIT ==> (key_of(a) < key_of(b)) == (a < b),
        a >= SIGN_BIT && b >= SIGN_BIT ==> (key_of(a) < key_of(b)) == (a > b),
        a >= SIGN_BIT && b < SIGN_BIT ==> key_of(a) < key_of(b),
        0 <= key_of(a) <= u32::MAX,
        (key_of(a) == key_of(b)) == (a == b),
{
}

} // verus!
