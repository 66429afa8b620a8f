//! The calls into the `fixed` crate, each behind a contract.

use fixed::types::extra::U28;
use fixed::FixedI128;
use vstd::prelude::*;

verus! {

/// The 28-fraction-bit type of the `fixed` crate that `Num` stores the bits of.
type Fix = FixedI128<U28>;

/// Number of raw units in one: `2^28`.
pub open spec fn scale() -> int {
    268435456
}

/// Whether `v` fits in an `i128`.
pub open spec fn fits_i128(v: int) -> bool {
    i128::MIN <= v <= i128::MAX
}

/// Raw bits of the product of two raw values: the exact product divided by
/// `2^28`, rounded towards negative infinity.
pub open spec fn mul_bits(a: int, b: int) -> int {
    (a * b) / scale()
}

/// Integer division rounded towards zero.
pub open spec fn trunc_div(a: int, b: int) -> int {
    let q = if a < 0 { -a } else { a } / if b < 0 { -b } else { b };
    if (a < 0) != (b < 0) { -q } else { q }
}

/// Raw bits of the quotient of two raw values: the dividend is widened by
/// `2^28` and the quotient is rounded towards zero.
pub open spec fn div_bits(a: int, b: int) -> int {
    trunc_div(a * scale(), b)
}

/// Relies on `FixedI128::checked_mul`: the full 256-bit product shifted right
/// by the fraction bits (rounding towards negative infinity), or `None` when
/// that does not fit in 128 bits.
#[verifier::external_body]
pub(crate) fn checked_mul_bits(a: i128, b: i128) -> (r: Option<i128>)
    ensures
        r == (if fits_i128(mul_bits(a as int, b as int)) {
            Some(mul_bits(a as int, b as int) as i128)
        } else {
            None::<i128>
        }),
{
    Fix::from_bits(a).checked_mul(Fix::from_bits(b)).map(|v| v.to_bits())
}

/// Relies on `FixedI128::checked_div`: the dividend widened by the fraction
/// bits, divided with rounding towards zero; `None` for a zero divisor or when
/// the quotient does not fit in 128 bits.
#[verifier::external_body]
pub(crate) fn checked_div_bits(a: i128, b: i128) -> (r: Option<i128>)
    ensures
        r == (if b != 0 && fits_i128(div_bits(a as int, b as int)) {
            Some(div_bits(a as int, b as int) as i128)
        } else {
            None::<i128>
        }),
{
    Fix::from_bits(a).checked_div(Fix::from_bits(b)).map(|v| v.to_bits())
}

/// Relies on `FixedI128::<U28>::PI`: the crate's 128-bit value of pi shifted
/// down to 28 fraction bits, that is `floor(pi * 2^28)`.
#[verifier::external_body]
pub(crate) fn pi_bits() -> (r: i128)
    ensures
        r == 843314856,
{
    Fix::PI.to_bits()
}

/// Relies on `FixedI128::<U28>::FRAC_PI_2`: `floor(pi / 2 * 2^28)`.
#[verifier::external_body]
pub(crate) fn frac_pi_2_bits() -> (r: i128)
    ensures
        r == 421657428,
{
    Fix::FRAC_PI_2.to_bits()
}

/// Relies on `FixedI128::<U28>::E`: `floor(e * 2^28)`.
#[verifier::external_body]
pub(crate) fn e_bits() -> (r: i128)
    ensures
        r == 729683222,
{
    Fix::E.to_bits()
}

} // verus!
