//! Scores as ordered numbers.
//!
//! A dissimilarity is measured outside this library as a number in sign and
//! magnitude form: 64 bits, of which the highest is the sign and the others,
//! read as a whole, grow with the magnitude. The scanner only ever compares
//! scores, so it holds each as a key: a `u64` that orders as the measured
//! numbers do.

use vstd::prelude::*;

verus! {

/// The bit of the sign.
pub const SIGN: u64 = 0x8000_0000_0000_0000;

/// What the bits stand for as far as their order goes: the magnitude, taken
/// below zero where the sign is set.
pub open spec fn signed_magnitude(bits: u64) -> int {
    if bits < SIGN {
        bits as int
    } else {
        -(bits - SIGN)
    }
}

/// The key of a number given by its bits.
pub open spec fn key_of(bits: u64) -> u64 {
    if bits < SIGN {
        (bits + SIGN) as u64
    } else {
        (u64::MAX - bits) as u64
    }
}

/// The bits of the number that has the given key.
pub open spec fn bits_of(key: u64) -> u64 {
    if key >= SIGN {
        (key - SIGN) as u64
    } else {
        (u64::MAX - key) as u64
    }
}

/// The key of the number with the given bits.
pub fn score_key(bits: u64) -> (key: u64)
    ensures
        key == key_of(bits),
{
    if bits < SIGN {
        bits + SIGN
    } else {
        u64::MAX - bits
    }
}

/// The bits of the number with the given key.
pub fn key_bits(key: u64) -> (bits: u64)
    ensures
        bits == bits_of(key),
{
    if key >= SIGN {
        key - SIGN
    } else {
        u64::MAX - key
    }
}

/// A key stands for one number only: the bits come back from their key, and
/// the key from its bits.
pub proof fn lemma_key_round_trip(word: u64)
    ensures
        bits_of(key_of(word)) == word,
        key_of(bits_of(word)) == word,
{
}

/// Keys order as the numbers do: the smaller number has the smaller key, and
/// of two numbers of the same magnitude, zero with and without the sign, the
/// one without the sign has the larger key.
pub proof fn lemma_key_order(one: u64, other: u64)
    ensures
        signed_magnitude(one) < signed_magnitude(other) ==> key_of(one) < key_of(other),
        key_of(one) < key_of(other) ==> signed_magnitude(one) <= signed_magnitude(other),
        signed_magnitude(one) == signed_magnitude(other) && one != other ==> signed_magnitude(one)
            == 0,
        key_of(0) == SIGN,
{
}

} // verus!
