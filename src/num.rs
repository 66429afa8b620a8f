//! The fixed-point number type and its arithmetic.

use crate::fixed_ops::{
    checked_div_bits, checked_mul_bits, div_bits, e_bits, fits_i128, frac_pi_2_bits, mul_bits,
    pi_bits, scale,
};
use vstd::arithmetic::div_mod::lemma_fundamental_div_mod_converse;
use vstd::arithmetic::power2::{lemma_pow2_unfold, pow2};
use vstd::prelude::*;

verus! {

/// Number of fraction bits.
pub const FRACT_BITS: u8 = 28;

/// Number of raw units in one.
const ONE_BITS: i128 = 268435456;

/// Largest magnitude of an integer part that `Num::new` accepts: `2^99 - 2`.
pub const MAX_INTEGER_PART: i128 = 633825300114114700748351602686;

/// Why an operation could not produce a `Num`.
#[derive(Clone, Copy, Debug, PartialEq, Eq, Structural)]
pub enum NumError {
    /// An integer part too large for the representation.
    ConstructionOverflow,
    /// An unsigned value that does not fit the signed container.
    UnrepresentableConversion,
}

/// A fixed-point number: the value is `raw / 2^28`.
#[derive(Clone, Copy, Debug, PartialEq, Eq, Structural, PartialOrd, Ord, Default)]
pub struct Num {
    raw: i128,
}

/// The raw bits of the floor of a raw value: its fraction bits cleared.
pub open spec fn floor_bits(x: int) -> int {
    (x / scale()) * scale()
}

/// The raw bits of `integer_part` with `fraction` in units of `1/256`.
pub open spec fn new_bits(integer_part: int, fraction: int) -> int {
    integer_part * scale() + fraction * 1048576
}

/// `x` divided by `2^n`, rounded towards negative infinity.
pub open spec fn shr_bits(x: int, n: nat) -> int {
    x / (pow2(n) as int)
}

/// Floor division by a positive divisor, on 128-bit values.
fn floor_div(x: i128, d: i128) -> (r: i128)
    requires
        d > 0,
    ensures
        r == x as int / d as int,
{
    if x >= 0 {
        ((x as u128) / (d as u128)) as i128
    } else {
        let m: u128 = (-(x + 1)) as u128;
        let q: u128 = m / (d as u128);
        proof {
            let qi = q as int;
            let ri = m as int % d as int;
            assert(m as int == qi * d as int + ri) by (nonlinear_arith)
                requires qi == m as int / d as int, ri == m as int % d as int, d > 0;
            assert(0 <= ri < d);
            assert(x as int == (-qi - 1) * d as int + (d as int - ri - 1)) by (nonlinear_arith)
                requires m as int == qi * d as int + ri, x as int == -(m as int) - 1;
            lemma_fundamental_div_mod_converse(x as int, d as int, -qi - 1, d as int - ri - 1);
            assert(qi <= m as int) by (nonlinear_arith)
                requires qi == m as int / d as int, d > 0, m >= 0;
        }
        -(q as i128) - 1
    }
}

/// The value of `2^127`.
proof fn lemma_pow2_127()
    ensures
        pow2(127) == 170141183460469231731687303715884105728nat,
{
    vstd::arithmetic::power2::lemma2_to64();
    vstd::arithmetic::power2::lemma2_to64_rest();
    vstd::arithmetic::power2::lemma_pow2_adds(64, 63);
}

/// `2^n` as a 128-bit value.
fn pow2_i128(n: u8) -> (r: i128)
    requires
        n <= 126,
    ensures
        r == pow2(n as nat),
{
    let mut r: i128 = 1;
    let mut i: u8 = 0;
    proof {
        vstd::arithmetic::power2::lemma2_to64();
    }
    while i < n
        invariant
            i <= n <= 126,
            r == pow2(i as nat),
        decreases n - i,
    {
        proof {
            lemma_pow2_unfold((i + 1) as nat);
            vstd::arithmetic::power2::lemma_pow2_strictly_increases((i + 1) as nat, 127);
            vstd::arithmetic::power2::lemma_pow2_unfold(127);
            lemma_pow2_127();
        }
        r = r * 2;
        i = i + 1;
    }
    r
}

impl Num {
    /// The raw bits, as a mathematical integer.
    pub closed spec fn bits(self) -> int {
        self.raw as int
    }

    /// Every raw value is a valid number.
    pub proof fn lemma_bits_range(self)
        ensures
            fits_i128(self.bits()),
    {
    }

    /// Two numbers are equal exactly when their raw bits are.
    pub proof fn lemma_bits_eq(self, other: Num)
        ensures
            (self == other) <==> (self.bits() == other.bits()),
    {
    }

    /// Width of the container in bits.
    pub fn num_bits() -> (r: u8)
        ensures
            r == 128,
    {
        128
    }

    /// Number of fraction bits.
    pub fn num_fract_bits() -> (r: u8)
        ensures
            r == 28,
    {
        FRACT_BITS
    }

    /// The number with the given raw bits.
    pub fn from_bits(raw: i128) -> (r: Num)
        ensures
            r.bits() == raw,
    {
        Num { raw }
    }

    /// The raw two's-complement bits.
    pub fn to_bits(self) -> (r: i128)
        ensures
            r == self.bits(),
    {
        self.raw
    }

    /// Zero.
    pub fn zero() -> (r: Num)
        ensures
            r.bits() == 0,
            r == Num::with_bits(0),
    {
        Num { raw: 0 }
    }

    /// One.
    pub fn one() -> (r: Num)
        ensures
            r.bits() == scale(),
            r == Num::with_bits(scale()),
    {
        Num { raw: ONE_BITS }
    }

    /// Pi, rounded down to 28 fraction bits (about 3.1415926).
    pub fn pi() -> (r: Num)
        ensures
            r.bits() == 843314856,
    {
        Num { raw: pi_bits() }
    }

    /// Half of pi, rounded down to 28 fraction bits (about 1.5707963).
    pub fn frac_pi_2() -> (r: Num)
        ensures
            r.bits() == 421657428,
    {
        Num { raw: frac_pi_2_bits() }
    }

    /// Euler's number, rounded down to 28 fraction bits (about 2.7182818).
    pub fn e() -> (r: Num)
        ensures
            r.bits() == 729683222,
    {
        Num { raw: e_bits() }
    }

    /// The number whose raw bits are `b`, for `b` in range.
    pub closed spec fn with_bits(b: int) -> Num {
        Num { raw: b as i128 }
    }

    /// `with_bits` keeps bits that are in range.
    pub proof fn lemma_with_bits(b: int)
        requires
            fits_i128(b),
        ensures
            Num::with_bits(b).bits() == b,
    {
    }

    /// A number is the one made from its own bits.
    pub proof fn lemma_with_own_bits(self)
        ensures
            Num::with_bits(self.bits()) == self,
    {
    }

    /// The sum, where it is in range.
    pub open spec fn spec_add(self, rhs: Num) -> Num {
        Num::with_bits(self.bits() + rhs.bits())
    }

    /// The difference, where it is in range.
    pub open spec fn spec_sub(self, rhs: Num) -> Num {
        Num::with_bits(self.bits() - rhs.bits())
    }

    /// The product, rounded down, where it is in range.
    pub open spec fn spec_mul(self, rhs: Num) -> Num {
        Num::with_bits(mul_bits(self.bits(), rhs.bits()))
    }

    /// The largest integer not above the value.
    pub open spec fn spec_floor(self) -> Num {
        Num::with_bits(floor_bits(self.bits()))
    }

    /// The largest integer not above the value.
    pub fn floor(self) -> (r: Num)
        ensures
            r.bits() == floor_bits(self.bits()),
            r == self.spec_floor(),
    {
        let q = floor_div(self.raw, ONE_BITS);
        proof {
            let x = self.raw as int;
            let qi = q as int;
            vstd::arithmetic::div_mod::lemma_fundamental_div_mod(x, scale());
            vstd::arithmetic::div_mod::lemma_mod_bound(x, scale());
            assert(qi * scale() <= x < qi * scale() + scale());
            assert(qi >= -633825300114114700748351602688) by (nonlinear_arith)
                requires
                    x < qi * 268435456 + 268435456,
                    x >= -170141183460469231731687303715884105728,
            ;
        }
        Num { raw: q * ONE_BITS }
    }

    /// The sum; both operands and the result share the 28 fraction bits, so
    /// nothing is rounded.
    pub fn add(self, rhs: Num) -> (r: Num)
        requires
            fits_i128(self.bits() + rhs.bits()),
        ensures
            r.bits() == self.bits() + rhs.bits(),
            r == self.spec_add(rhs),
    {
        Num { raw: self.raw + rhs.raw }
    }

    /// The difference, exact.
    pub fn sub(self, rhs: Num) -> (r: Num)
        requires
            fits_i128(self.bits() - rhs.bits()),
        ensures
            r.bits() == self.bits() - rhs.bits(),
            r == self.spec_sub(rhs),
    {
        Num { raw: self.raw - rhs.raw }
    }

    /// Adds `rhs` in place.
    pub fn add_assign(&mut self, rhs: Num)
        requires
            fits_i128(old(self).bits() + rhs.bits()),
        ensures
            final(self).bits() == old(self).bits() + rhs.bits(),
    {
        self.raw = self.raw + rhs.raw;
    }

    /// Subtracts `rhs` in place.
    pub fn sub_assign(&mut self, rhs: Num)
        requires
            fits_i128(old(self).bits() - rhs.bits()),
        ensures
            final(self).bits() == old(self).bits() - rhs.bits(),
    {
        self.raw = self.raw - rhs.raw;
    }

    /// Zero minus the value.
    pub fn neg(self) -> (r: Num)
        requires
            self.bits() != i128::MIN,
        ensures
            r.bits() == -self.bits(),
    {
        Num { raw: -self.raw }
    }

    /// The product rounded towards negative infinity, or `None` when it does
    /// not fit.
    pub fn checked_mul(self, rhs: Num) -> (r: Option<Num>)
        ensures
            r is Some <==> fits_i128(mul_bits(self.bits(), rhs.bits())),
            r is Some ==> r->Some_0.bits() == mul_bits(self.bits(), rhs.bits()),
            r is Some ==> r->Some_0 == self.spec_mul(rhs),
    {
        match checked_mul_bits(self.raw, rhs.raw) {
            Some(raw) => Some(Num { raw }),
            None => None,
        }
    }

    /// The product: the exact product of the raw values shifted right by the
    /// fraction bits, so rounded towards negative infinity.
    pub fn mul(self, rhs: Num) -> (r: Num)
        requires
            fits_i128(mul_bits(self.bits(), rhs.bits())),
        ensures
            r.bits() == mul_bits(self.bits(), rhs.bits()),
            r == self.spec_mul(rhs),
    {
        match checked_mul_bits(self.raw, rhs.raw) {
            Some(raw) => Num { raw },
            None => Num { raw: 0 },
        }
    }

    /// The quotient rounded towards zero, or `None` for a zero divisor or a
    /// quotient that does not fit.
    pub fn checked_div(self, rhs: Num) -> (r: Option<Num>)
        ensures
            r is Some <==> rhs.bits() != 0 && fits_i128(div_bits(self.bits(), rhs.bits())),
            r is Some ==> r->Some_0.bits() == div_bits(self.bits(), rhs.bits()),
    {
        match checked_div_bits(self.raw, rhs.raw) {
            Some(raw) => Some(Num { raw }),
            None => None,
        }
    }

    /// The quotient: the dividend widened by the fraction bits, divided by the
    /// divisor and rounded towards zero.
    pub fn div(self, rhs: Num) -> (r: Num)
        requires
            rhs.bits() != 0,
            fits_i128(div_bits(self.bits(), rhs.bits())),
        ensures
            r.bits() == div_bits(self.bits(), rhs.bits()),
    {
        match checked_div_bits(self.raw, rhs.raw) {
            Some(raw) => Num { raw },
            None => Num { raw: 0 },
        }
    }

    /// Arithmetic shift right: the value divided by `2^n`, rounded towards
    /// negative infinity. Shifts of 127 or more saturate at 127, which leaves
    /// `-1` raw unit for a negative value and zero otherwise.
    pub fn shr(self, n: u8) -> (r: Num)
        ensures
            r.bits() == shr_bits(self.bits(), if n >= 127 { 127nat } else { n as nat }),
    {
        if n >= 127 {
            proof {
                lemma_pow2_127();
                let x = self.raw as int;
                if x < 0 {
                    lemma_fundamental_div_mod_converse(x, pow2(127) as int, -1, x + pow2(127));
                } else {
                    lemma_fundamental_div_mod_converse(x, pow2(127) as int, 0, x);
                }
            }
            if self.raw < 0 {
                Num { raw: -1 }
            } else {
                Num { raw: 0 }
            }
        } else {
            let p = pow2_i128(n);
            proof {
                vstd::arithmetic::power2::lemma_pow2_pos(n as nat);
            }
            Num { raw: floor_div(self.raw, p) }
        }
    }

    /// Shift left: the value multiplied by `2^n`. Shifts past 126 bits, and
    /// shifts that would push bits out, are outside the contract.
    pub fn shl(self, n: u8) -> (r: Num)
        requires
            n <= 126,
            fits_i128(self.bits() * pow2(n as nat)),
        ensures
            r.bits() == self.bits() * pow2(n as nat),
    {
        let p = pow2_i128(n);
        Num { raw: self.raw * p }
    }

    /// The number with the given integer part and `fraction / 256` added to
    /// it, or `ConstructionOverflow` when the integer part's magnitude exceeds
    /// `MAX_INTEGER_PART`.
    pub fn new(integer_part: i128, fraction: u8) -> (r: Result<Num, NumError>)
        ensures
            r is Ok <==> -MAX_INTEGER_PART <= integer_part <= MAX_INTEGER_PART,
            r is Ok ==> r->Ok_0.bits() == new_bits(integer_part as int, fraction as int),
            r is Err ==> r->Err_0 == NumError::ConstructionOverflow,
    {
        if integer_part > MAX_INTEGER_PART || integer_part < -MAX_INTEGER_PART {
            Err(NumError::ConstructionOverflow)
        } else {
            let f = fraction as i128;
            proof {
                assert(integer_part * 268435456 + f * 1048576 <= i128::MAX) by (nonlinear_arith)
                    requires integer_part <= MAX_INTEGER_PART, f <= 255;
                assert(integer_part * 268435456 + f * 1048576 >= i128::MIN) by (nonlinear_arith)
                    requires integer_part >= -MAX_INTEGER_PART, f >= 0;
            }
            Ok(Num { raw: integer_part * ONE_BITS + f * 1048576 })
        }
    }

    /// The integer `n` as a number, or `ConstructionOverflow` when `n * 2^28`
    /// does not fit.
    pub fn from_num(n: i128) -> (r: Result<Num, NumError>)
        ensures
            r is Ok <==> fits_i128(n * scale()),
            r is Ok ==> r->Ok_0.bits() == n * scale(),
            r is Err ==> r->Err_0 == NumError::ConstructionOverflow,
    {
        match n.checked_mul(ONE_BITS) {
            Some(raw) => Ok(Num { raw }),
            None => Err(NumError::ConstructionOverflow),
        }
    }

    /// The unsigned integer `n` as a number, or `UnrepresentableConversion`
    /// when `n * 2^28` does not fit the signed container.
    pub fn from_unsigned(n: u128) -> (r: Result<Num, NumError>)
        ensures
            r is Ok <==> n * scale() <= i128::MAX,
            r is Ok ==> r->Ok_0.bits() == n * scale(),
            r is Err ==> r->Err_0 == NumError::UnrepresentableConversion,
    {
        if n > 633825300114114700748351602687u128 {
            Err(NumError::UnrepresentableConversion)
        } else {
            let v = n as i128;
            Ok(Num { raw: v * ONE_BITS })
        }
    }

    /// The value as an integer, rounded towards negative infinity.
    pub fn to_num(self) -> (r: i128)
        ensures
            r == self.bits() / scale(),
    {
        floor_div(self.raw, ONE_BITS)
    }

    /// A number with no integer part whose fraction is `v / 2^64`, cut down to
    /// 28 fraction bits (rounding towards negative infinity).
    pub fn from_fraction_only(v: u64) -> (r: Num)
        ensures
            r.bits() == v as int / 68719476736,
    {
        Num { raw: (v / 68719476736u64) as i128 }
    }

    /// Adds the integer `n`, scaled by `2^28`; `ConstructionOverflow` when the
    /// scaled integer or the sum does not fit.
    pub fn add_int(self, n: i128) -> (r: Result<Num, NumError>)
        ensures
            r is Ok <==> fits_i128(n * scale()) && fits_i128(self.bits() + n * scale()),
            r is Ok ==> r->Ok_0.bits() == self.bits() + n * scale(),
            r is Err ==> r->Err_0 == NumError::ConstructionOverflow,
    {
        match n.checked_mul(ONE_BITS) {
            Some(scaled) => match self.raw.checked_add(scaled) {
                Some(raw) => Ok(Num { raw }),
                None => Err(NumError::ConstructionOverflow),
            },
            None => Err(NumError::ConstructionOverflow),
        }
    }

    /// Subtracts the integer `n`, scaled by `2^28`; `ConstructionOverflow`
    /// when the scaled integer or the difference does not fit.
    pub fn sub_int(self, n: i128) -> (r: Result<Num, NumError>)
        ensures
            r is Ok <==> fits_i128(n * scale()) && fits_i128(self.bits() - n * scale()),
            r is Ok ==> r->Ok_0.bits() == self.bits() - n * scale(),
            r is Err ==> r->Err_0 == NumError::ConstructionOverflow,
    {
        match n.checked_mul(ONE_BITS) {
            Some(scaled) => match self.raw.checked_sub(scaled) {
                Some(raw) => Ok(Num { raw }),
                None => Err(NumError::ConstructionOverflow),
            },
            None => Err(NumError::ConstructionOverflow),
        }
    }
}

} // verus!
