//! Coordinates held as order-preserving integer keys of `f64` bit patterns.
//!
//! A finite or infinite `f64` with bit pattern `b` is held as the key
//! `key_of_bits(b)`: non-negative values keep their bits, negative values take
//! the negated magnitude bits. Both zeros share the key `0`, so comparing keys
//! agrees with IEEE-754 comparison on every value that is not NaN.
use vstd::prelude::*;

verus! {

/// The sign bit of an `f64` bit pattern.
pub const SIGN_BIT: u64 = 0x8000_0000_0000_0000;

/// The key of the `f64` with bit pattern `bits`.
pub open spec fn key_of_bits(bits: u64) -> int {
    if bits < SIGN_BIT {
        bits as int
    } else {
        -((bits - SIGN_BIT) as int)
    }
}

/// The key of `+inf`; the key of `-inf` is its negation.
pub const INFINITY_KEY: i64 = 0x7FF0_0000_0000_0000;

/// The key of a finite `f64`: finite values are exactly those whose key lies
/// strictly between the keys of `-inf` and `+inf` (NaN keys lie beyond them).
pub open spec fn is_finite_key(k: int) -> bool {
    -(INFINITY_KEY as int) < k && k < INFINITY_KEY as int
}

/// Whether `k` is the key of a finite `f64`.
pub fn ordinate_is_finite(k: i64) -> (r: bool)
    ensures
        r == is_finite_key(k as int),
{
    -INFINITY_KEY < k && k < INFINITY_KEY
}

/// A key that some bit pattern maps to.
pub open spec fn is_key(k: int) -> bool {
    -(SIGN_BIT as int) < k && k < SIGN_BIT as int
}

/// The key of an `f64` given by its bit pattern (`f64::to_bits`).
pub fn ordinate_from_bits(bits: u64) -> (k: i64)
    ensures
        k as int == key_of_bits(bits),
        is_key(k as int),
{
    if bits < SIGN_BIT {
        bits as i64
    } else {
        -((bits - SIGN_BIT) as i64)
    }
}

/// The bit pattern of the `f64` whose key is `k`; a zero comes back as `+0.0`.
pub fn ordinate_to_bits(k: i64) -> (bits: u64)
    requires
        is_key(k as int),
    ensures
        key_of_bits(bits) == k as int,
        k == 0 ==> bits == 0,
{
    if k >= 0 {
        k as u64
    } else {
        (-k) as u64 + SIGN_BIT
    }
}

} // verus!
