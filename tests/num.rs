use cordic_num::{Num, NumError};

const ERRMAX: f64 = 0.00000001_f64;
const ONE_BITS: i128 = 1 << 28;
const MAX_INTEGER_PART: i128 = (1i128 << 99) - 2;

fn to_f64(n: Num) -> f64 {
    n.to_bits() as f64 / ONE_BITS as f64
}

fn assert_approx_eq(computed: f64, expected: f64, max_err: f64) {
    let err = (computed - expected).abs();
    if err > max_err {
        panic!("mismatch: computed {}, expected {}", computed, expected);
    }
}

#[test]
fn num_new() {
    let result = Num::one().neg();
    assert_approx_eq(to_f64(result), to_f64(Num::from_num(-1).unwrap()), ERRMAX);
}

#[test]
fn zero() {
    let result = Num::one().neg().add(Num::one());
    let expected = Num::from_num(0).unwrap();
    assert_approx_eq(to_f64(result), to_f64(expected), ERRMAX);
}

#[test]
fn add() {
    let result = Num::one().add(Num::one());
    let expected = Num::from_num(2).unwrap();
    assert_approx_eq(to_f64(result), to_f64(expected), ERRMAX);
}

#[test]
fn pos_floor() {
    let result = Num::e().floor();
    let expected = Num::from_num(2).unwrap();
    assert_approx_eq(to_f64(result), to_f64(expected), ERRMAX);
}

#[test]
fn neg_floor() {
    let result = Num::e().neg().floor();
    let expected = Num::from_num(-3).unwrap();
    assert_approx_eq(to_f64(result), to_f64(expected), ERRMAX);
}

#[test]
fn one_plus_one_is_new_two() {
    assert_eq!(Num::one().add(Num::one()), Num::new(2, 0).unwrap());
}

#[test]
fn new_at_the_boundary() {
    let top = Num::new(MAX_INTEGER_PART, 255).unwrap();
    assert_eq!(top.to_bits(), (MAX_INTEGER_PART << 28) + (255 << 20));
    assert_eq!(Num::new(MAX_INTEGER_PART + 1, 0), Err(NumError::ConstructionOverflow));
    assert_eq!(Num::new(-MAX_INTEGER_PART - 1, 0), Err(NumError::ConstructionOverflow));
    assert!(Num::new(-MAX_INTEGER_PART, 0).is_ok());
}

#[test]
fn new_places_the_fraction_byte() {
    assert_eq!(Num::new(2, 128).unwrap().to_bits(), 5 * (ONE_BITS / 2));
    assert_eq!(Num::new(-3, 64).unwrap().to_bits(), -3 * ONE_BITS + ONE_BITS / 4);
}

#[test]
fn constants_have_expected_bits() {
    assert_eq!(Num::zero().to_bits(), 0);
    assert_eq!(Num::one().to_bits(), ONE_BITS);
    assert_eq!(Num::pi().to_bits(), 843314856);
    assert_eq!(Num::frac_pi_2().to_bits(), 421657428);
    assert_eq!(Num::e().to_bits(), 729683222);
    assert_approx_eq(to_f64(Num::pi()), std::f64::consts::PI, 1e-8);
    assert_approx_eq(to_f64(Num::frac_pi_2()), std::f64::consts::FRAC_PI_2, 1e-8);
    assert_approx_eq(to_f64(Num::e()), std::f64::consts::E, 1e-8);
    assert_eq!(Num::num_bits(), 128);
    assert_eq!(Num::num_fract_bits(), 28);
}

#[test]
fn add_then_sub_round_trips() {
    let a = Num::from_bits(-123456789012345);
    let b = Num::pi();
    assert_eq!(a.add(b).sub(b), a);
}

#[test]
fn neutral_elements() {
    let a = Num::from_bits(987654321987);
    assert_eq!(a.add(Num::zero()), a);
    assert_eq!(a.mul(Num::one()), a);
    assert_eq!(a.sub(a), Num::zero());
}

#[test]
fn floor_twice_is_floor_once() {
    for raw in [-ONE_BITS - 1, -1, 0, 1, ONE_BITS, 5 * ONE_BITS + 7, i128::MIN, i128::MAX] {
        let x = Num::from_bits(raw);
        assert_eq!(x.floor().floor(), x.floor());
    }
    assert_eq!(Num::from_bits(i128::MIN).floor().to_bits(), i128::MIN);
    assert_eq!(Num::from_bits(-1).floor().to_bits(), -ONE_BITS);
}

#[test]
fn multiply_rounds_towards_negative_infinity() {
    let tiny = Num::from_bits(1);
    let half = Num::from_bits(ONE_BITS / 2);
    assert_eq!(tiny.mul(half).to_bits(), 0);
    assert_eq!(tiny.neg().mul(half).to_bits(), -1);
    let three = Num::from_num(3).unwrap();
    let two_and_half = Num::new(2, 128).unwrap();
    assert_eq!(three.mul(two_and_half), Num::new(7, 128).unwrap());
}

#[test]
fn multiply_is_nearly_associative() {
    let a = Num::from_bits(ONE_BITS / 3);
    let b = Num::from_bits(12345 * ONE_BITS + 6789);
    let c = Num::from_bits(-(ONE_BITS / 7));
    let left = a.mul(b).mul(c).to_bits();
    let right = a.mul(b.mul(c)).to_bits();
    assert!((left - right).abs() <= 2);
}

#[test]
fn checked_mul_reports_overflow() {
    let big = Num::from_bits(i128::MAX);
    assert_eq!(big.checked_mul(Num::from_num(2).unwrap()), None);
    assert_eq!(big.checked_mul(Num::one()), Some(big));
}

#[test]
fn divide_rounds_towards_zero() {
    let one = Num::one();
    let three = Num::from_num(3).unwrap();
    assert_eq!(one.div(three).to_bits(), ONE_BITS / 3);
    assert_eq!(one.neg().div(three).to_bits(), -(ONE_BITS / 3));
    assert_eq!(Num::from_num(7).unwrap().div(Num::new(0, 128).unwrap()), Num::from_num(14).unwrap());
    assert_eq!(one.checked_div(Num::zero()), None);
    assert_eq!(Num::from_bits(i128::MAX).checked_div(Num::from_bits(1)), None);
}

#[test]
fn shifts() {
    let x = Num::from_num(-5).unwrap();
    assert_eq!(x.shr(1).to_bits(), -5 * ONE_BITS / 2);
    assert_eq!(Num::from_bits(-1).shr(3).to_bits(), -1);
    assert_eq!(Num::from_bits(7).shr(1).to_bits(), 3);
    assert_eq!(x.shr(200).to_bits(), -1);
    assert_eq!(Num::one().shr(127).to_bits(), 0);
    assert_eq!(Num::one().shl(3), Num::from_num(8).unwrap());
    assert_eq!(x.shl(2), Num::from_num(-20).unwrap());
}

#[test]
fn compound_assignment() {
    let mut x = Num::one();
    x.add_assign(Num::pi());
    assert_eq!(x.to_bits(), ONE_BITS + 843314856);
    x.sub_assign(Num::one());
    assert_eq!(x, Num::pi());
}

#[test]
fn integer_conversions() {
    assert_eq!(Num::from_num(-7).unwrap().to_bits(), -7 * ONE_BITS);
    assert_eq!(Num::from_num(i128::MAX / ONE_BITS + 1), Err(NumError::ConstructionOverflow));
    assert_eq!(Num::from_unsigned(3).unwrap().to_bits(), 3 * ONE_BITS);
    assert_eq!(Num::from_unsigned(u128::MAX), Err(NumError::UnrepresentableConversion));
    assert_eq!(Num::e().to_num(), 2);
    assert_eq!(Num::e().neg().to_num(), -3);
    assert_eq!(Num::from_fraction_only(1u64 << 63).to_bits(), ONE_BITS / 2);
    assert_eq!(Num::from_fraction_only(u64::MAX).to_bits(), ONE_BITS - 1);
}

#[test]
fn integer_operands() {
    let x = Num::new(1, 64).unwrap();
    assert_eq!(x.add_int(2).unwrap(), Num::new(3, 64).unwrap());
    assert_eq!(x.sub_int(2).unwrap(), Num::new(-1, 64).unwrap());
    assert_eq!(x.add_int(i128::MAX), Err(NumError::ConstructionOverflow));
    assert_eq!(Num::from_bits(i128::MAX).add_int(1), Err(NumError::ConstructionOverflow));
}
