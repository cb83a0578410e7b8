//! Base-10 text and modular products of little-endian numbers, computed
//! by num_bigint.

use vstd::prelude::*;
use crate::bytes::le_value;

verus! {

/// The decimal digit `d`.
pub open spec fn digit_char(d: nat) -> char {
    seq!['0', '1', '2', '3', '4', '5', '6', '7', '8', '9'][d as int]
}

/// `n` in base 10, with no leading zeros ("0" for zero).
pub open spec fn decimal(n: nat) -> Seq<char>
    decreases n,
{
    if n < 10 {
        seq![digit_char(n)]
    } else {
        decimal(n / 10).push(digit_char(n % 10))
    }
}

/// Relies on num_bigint: `BigUint::from_bytes_le` reads little-endian
/// bytes and `to_str_radix(10)` writes the number in base 10 with no
/// leading zeros, "0" for zero.
#[verifier::external_body]
pub(crate) fn decimal_of_le(b: &[u8]) -> (r: String)
    ensures
        r@ == decimal(le_value(b@)),
{
    num_bigint::BigUint::from_bytes_le(b).to_str_radix(10)
}

/// Relies on num_bigint: `*` on two `BigUint`s is their product; the
/// operands are read from, and the result written as, little-endian bytes.
#[verifier::external_body]
pub(crate) fn mul_le(a: &[u8], b: &[u8]) -> (r: Vec<u8>)
    ensures
        le_value(r@) == le_value(a@) * le_value(b@),
{
    (num_bigint::BigUint::from_bytes_le(a) * num_bigint::BigUint::from_bytes_le(b)).to_bytes_le()
}

/// Relies on num_bigint: `%` on two `BigUint`s is the remainder, and
/// panics on a zero divisor; the operands are read from, and the result
/// written as, little-endian bytes.
#[verifier::external_body]
pub(crate) fn rem_le(a: &[u8], m: &[u8]) -> (r: Vec<u8>)
    requires
        le_value(m@) > 0,
    ensures
        le_value(r@) == le_value(a@) % le_value(m@),
{
    (num_bigint::BigUint::from_bytes_le(a) % num_bigint::BigUint::from_bytes_le(m)).to_bytes_le()
}

} // verus!
