use egg_herbie::constant::Constant;
use egg_herbie::constant::Integer;
use num_bigint::BigInt;

#[test]
fn integers_from_machine_integers() {
    assert_eq!(Integer::from_i64(0).to_signed_bytes_le(), BigInt::from(0).to_signed_bytes_le());
    assert_eq!(Integer::from_i64(-1125).to_signed_bytes_le(), vec![155, 251]);
    assert_eq!(
        BigInt::from_signed_bytes_le(&Integer::from_i64(i64::MIN).to_signed_bytes_le()),
        BigInt::from(i64::MIN)
    );
}

#[test]
fn integers_compare_by_value() {
    assert_eq!(Integer::from_signed_bytes_le(vec![1, 0, 0]), Integer::from_i64(1));
    assert_eq!(Integer::from_signed_bytes_le(vec![]), Integer::from_i64(0));
    assert_eq!(Integer::from_signed_bytes_le(vec![255, 255]), Integer::from_i64(-1));
    assert_eq!(Integer::from_signed_bytes_le(vec![0, 1]), Integer::from_i64(256));
    assert_eq!(Integer::from_signed_bytes_le(vec![128]), Integer::from_i64(-128));
    assert_ne!(Integer::from_signed_bytes_le(vec![255]), Integer::from_i64(255));
    assert_eq!(Integer::from_i64(7).clone(), Integer::from_i64(7));
}

#[test]
fn a_new_constant_is_in_lowest_terms() {
    let c = Constant::new(&Integer::from_i64(6), &Integer::from_i64(-4)).unwrap();
    assert_eq!(*c.numer(), Integer::from_i64(-3));
    assert_eq!(*c.denom(), Integer::from_i64(2));
    let zero = Constant::new(&Integer::from_i64(0), &Integer::from_i64(-9)).unwrap();
    assert_eq!(*zero.numer(), Integer::from_i64(0));
    assert_eq!(*zero.denom(), Integer::from_i64(1));
}

#[test]
fn no_constant_has_a_zero_denominator() {
    assert_eq!(Constant::new(&Integer::from_i64(1), &Integer::from_i64(0)), None);
    assert_eq!(Constant::new(&Integer::from_i64(0), &Integer::from_i64(0)), None);
}

#[test]
fn constants_from_whole_numbers() {
    let five = Constant::from_integer(Integer::from_i64(5));
    assert_eq!(*five.numer(), Integer::from_i64(5));
    assert_eq!(*five.denom(), Integer::from_i64(1));
    assert_eq!(
        five,
        Constant::new(&Integer::from_i64(10), &Integer::from_i64(2)).unwrap()
    );
    assert_eq!(five.clone(), five);
}

#[test]
fn constants_tell_zero_sign_and_wholeness() {
    let half = Constant::new(&Integer::from_i64(1), &Integer::from_i64(2)).unwrap();
    let minus_two = Constant::from_integer(Integer::from_i64(-2));
    let zero = Constant::from_integer(Integer::from_i64(0));
    assert!(!half.is_zero() && half.is_positive() && !half.is_integer());
    assert!(!minus_two.is_zero() && !minus_two.is_positive() && minus_two.is_integer());
    assert!(zero.is_zero() && !zero.is_positive() && zero.is_integer());
    assert_ne!(half, minus_two);
}
