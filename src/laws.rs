//! Algebraic laws of `Num`, stated over the same spec functions as the
//! operations' contracts.

use crate::fixed_ops::{fits_i128, mul_bits, scale};
use crate::num::{floor_bits, Num};
use vstd::arithmetic::div_mod::{lemma_fundamental_div_mod, lemma_fundamental_div_mod_converse, lemma_mod_bound};
use vstd::prelude::*;

verus! {

/// Adding `b` and then subtracting `b` again gives back `a` exactly.
pub proof fn law_add_sub_round_trip(a: Num, b: Num)
    requires
        fits_i128(a.bits() + b.bits()),
    ensures
        fits_i128(a.spec_add(b).bits() - b.bits()),
        a.spec_add(b).spec_sub(b) == a,
{
    a.lemma_bits_range();
    Num::lemma_with_bits(a.bits() + b.bits());
    a.lemma_with_own_bits();
}

/// Zero is neutral for addition, one is neutral for multiplication, and a
/// number minus itself is zero.
pub proof fn law_identities(a: Num)
    ensures
        a.spec_add(Num::with_bits(0)) == a,
        a.spec_mul(Num::with_bits(scale())) == a,
        a.spec_sub(a) == Num::with_bits(0),
{
    Num::lemma_with_bits(0);
    Num::lemma_with_bits(scale());
    a.lemma_bits_range();
    a.lemma_with_own_bits();
    vstd::arithmetic::div_mod::lemma_div_multiples_vanish(a.bits(), scale());
    assert(mul_bits(a.bits(), scale()) == a.bits()) by (nonlinear_arith)
        requires
            (scale() * a.bits()) / scale() == a.bits(),
    ;
}

/// The floor of a number is in range, and taking the floor twice is the same
/// as taking it once.
pub proof fn law_floor_idempotent(a: Num)
    ensures
        fits_i128(floor_bits(a.bits())),
        a.spec_floor().spec_floor() == a.spec_floor(),
{
    let x = a.bits();
    let d = scale();
    let q = x / d;
    a.lemma_bits_range();
    lemma_fundamental_div_mod(x, d);
    lemma_mod_bound(x, d);
    assert(q >= -633825300114114700748351602688) by (nonlinear_arith)
        requires
            x < q * 268435456 + 268435456,
            x >= -170141183460469231731687303715884105728,
    ;
    Num::lemma_with_bits(q * d);
    lemma_fundamental_div_mod_converse(q * d, d, q, 0);
}

/// Bounds `e * c` for `0 <= e < 2^28` and `|c| <= 2^28`.
proof fn lemma_small_product(e: int, c: int)
    requires
        0 <= e < 268435456,
        -268435456 <= c <= 268435456,
    ensures
        -72057594037927936 < e * c < 72057594037927936,
{
    assert(-72057594037927936 < e * c < 72057594037927936) by (nonlinear_arith)
        requires
            0 <= e < 268435456,
            -268435456 <= c <= 268435456,
    ;
}

/// Multiplication is associative up to rounding: for operands `a` and `c` of
/// magnitude at most one, `(a * b) * c` and `a * (b * c)` differ by at most
/// one raw unit for each of the two multiplications.
pub proof fn law_mul_near_associative(a: Num, b: Num, c: Num)
    requires
        -scale() <= a.bits() <= scale(),
        -scale() <= c.bits() <= scale(),
        fits_i128(mul_bits(a.bits(), b.bits())),
        fits_i128(mul_bits(mul_bits(a.bits(), b.bits()), c.bits())),
        fits_i128(mul_bits(b.bits(), c.bits())),
        fits_i128(mul_bits(a.bits(), mul_bits(b.bits(), c.bits()))),
    ensures
        -2 <= a.spec_mul(b).spec_mul(c).bits() - a.spec_mul(b.spec_mul(c)).bits() <= 2,
{
    let d = scale();
    let (x, y, z) = (a.bits(), b.bits(), c.bits());
    let t1 = mul_bits(x, y);
    let t2 = mul_bits(y, z);
    let r1 = mul_bits(t1, z);
    let r2 = mul_bits(x, t2);
    Num::lemma_with_bits(t1);
    Num::lemma_with_bits(t2);
    Num::lemma_with_bits(r1);
    Num::lemma_with_bits(r2);
    lemma_fundamental_div_mod(x * y, d);
    lemma_mod_bound(x * y, d);
    lemma_fundamental_div_mod(t1 * z, d);
    lemma_mod_bound(t1 * z, d);
    lemma_fundamental_div_mod(y * z, d);
    lemma_mod_bound(y * z, d);
    lemma_fundamental_div_mod(x * t2, d);
    lemma_mod_bound(x * t2, d);
    let e1 = (x * y) % d;
    let e2 = (t1 * z) % d;
    let f1 = (y * z) % d;
    let f2 = (x * t2) % d;
    lemma_small_product(e1, z);
    lemma_small_product(f1, x);
    assert(d * (d * r1) == d * (t1 * z) - d * e2) by (nonlinear_arith)
        requires
            t1 * z == d * r1 + e2,
    ;
    assert(d * (t1 * z) == (x * y) * z - e1 * z) by (nonlinear_arith)
        requires
            x * y == d * t1 + e1,
    ;
    assert(d * (d * r2) == d * (x * t2) - d * f2) by (nonlinear_arith)
        requires
            x * t2 == d * r2 + f2,
    ;
    assert(d * (x * t2) == x * (y * z) - x * f1) by (nonlinear_arith)
        requires
            y * z == d * t2 + f1,
    ;
    assert((x * y) * z == x * (y * z)) by (nonlinear_arith);
    assert((r1 - r2) * d * d == f1 * x - e1 * z + (f2 - e2) * d) by (nonlinear_arith)
        requires
            d * (d * r1) == d * (t1 * z) - d * e2,
            d * (t1 * z) == (x * y) * z - e1 * z,
            d * (d * r2) == d * (x * t2) - d * f2,
            d * (x * t2) == x * (y * z) - x * f1,
            (x * y) * z == x * (y * z),
    ;
    assert(-2 <= r1 - r2 <= 2) by (nonlinear_arith)
        requires
            (r1 - r2) * d * d == f1 * x - e1 * z + (f2 - e2) * d,
            d == 268435456,
            -72057594037927936 < e1 * z < 72057594037927936,
            -72057594037927936 < f1 * x < 72057594037927936,
            0 <= e2 < d,
            0 <= f2 < d,
    ;
}

} // verus!
