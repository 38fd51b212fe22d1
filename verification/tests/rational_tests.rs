use calc::error::CalcError;
use calc::number::Number;
use calc::number_op;
use calc::rational::Rational;

#[test]
fn test_add() {
    let result = Rational::new(1, 2).add(Rational::new(1, 3)).unwrap();
    assert_eq!(result, Rational::new(5, 6));
}

#[test]
fn test_sub_to_zero() {
    let result = Rational::new(1, 2).sub(Rational::new(1, 2)).unwrap();
    assert_eq!(result, Rational::new(0, 1));
}

#[test]
fn test_mul_to_zero() {
    let result = Rational::new(1, 2).mul(Rational::new(0, 1)).unwrap();
    assert_eq!(result, Rational::new(0, 1));
}

#[test]
fn test_new_reduces_to_lowest_terms() {
    let r = Rational::new(6, 8);
    assert_eq!(r, Rational { num: 3, den: 4 });
    let r = Rational::new(-10, 4);
    assert_eq!(r, Rational { num: -5, den: 2 });
    let r = Rational::new(0, 7);
    assert_eq!(r, Rational { num: 0, den: 1 });
}

#[test]
fn test_new_idempotent_on_reduced() {
    let r = Rational::new(35, 12);
    let again = Rational::new(r.num, r.den);
    assert_eq!(again, r);
    let n = Rational::new(-7, 3);
    let again = Rational::new(n.num, n.den);
    assert_eq!(again, n);
}

#[test]
fn test_sub_collapses_to_integer_zero() {
    let lhs = Number::Rational(Rational::new(1, 2));
    let rhs = Number::Rational(Rational::new(1, 2));
    assert_eq!(number_op::sub(lhs, rhs), Ok(Number::Int(0)));
}

#[test]
fn test_div_by_zero_any_representation() {
    assert_eq!(
        number_op::div(Number::Int(5), Number::Int(0)),
        Err(CalcError::DivByZero)
    );
    assert_eq!(
        number_op::div(
            Number::Rational(Rational::new(1, 2)),
            Number::Int(0)
        ),
        Err(CalcError::DivByZero)
    );
}

#[test]
fn test_invert_zero_numerator() {
    let zero = Rational::new(0, 9);
    assert_eq!(zero.invert(), Err(CalcError::DivByZero));
    assert_eq!(Rational::inverse(0), Err(CalcError::DivByZero));
}

#[test]
fn test_invert_and_inverse() {
    assert_eq!(Rational::new(3, 4).invert().unwrap(), Rational::new(4, 3));
    assert_eq!(Rational::new(-3, 4).invert().unwrap(), Rational::new(-4, 3));
    assert_eq!(Rational::inverse(-5).unwrap(), Rational::new(-1, 5));
}

#[test]
fn test_checked_pow() {
    assert_eq!(
        Rational::new(3, 2).checked_pow(2),
        Some(Rational::new(9, 4))
    );
    assert_eq!(
        Rational::new(2, 3).checked_pow(-1),
        Some(Rational::new(3, 2))
    );
    assert_eq!(
        Rational::new(2, 3).checked_pow(-2),
        Some(Rational::new(9, 4))
    );
    // 10^40 overflows the 64-bit numerator.
    assert_eq!(Rational::new(10, 1).checked_pow(40), None);
}

#[test]
fn test_pow_exact() {
    assert_eq!(Rational::new(-2, 3).pow(3), Rational::new(-8, 27));
}

#[test]
fn test_number_pow() {
    assert_eq!(
        number_op::pow(Number::Int(2), Number::Int(10)),
        Ok(Number::Int(1024))
    );
    assert_eq!(
        number_op::pow(Number::Int(2), Number::Int(-2)),
        Ok(Number::Rational(Rational::new(1, 4)))
    );
    assert_eq!(
        number_op::pow(Number::Int(0), Number::Int(-1)),
        Err(CalcError::DivByZero)
    );
    assert_eq!(
        number_op::pow(Number::Int(2), Number::Int(200)),
        Err(CalcError::Inexact)
    );
    // A fractional exponent has no exact result.
    assert_eq!(
        number_op::pow(Number::Int(4), Number::Rational(Rational::new(1, 2))),
        Err(CalcError::Inexact)
    );
}

#[test]
fn test_number_add_mixed() {
    let a = Number::Rational(Rational::new(1, 2));
    let b = Number::Int(1);
    assert_eq!(
        number_op::add(a, b),
        Ok(Number::Rational(Rational::new(3, 2)))
    );
    assert_eq!(
        number_op::mul(a, Number::Int(2)),
        Ok(Number::Int(1))
    );
}

#[test]
fn test_number_div_exact() {
    assert_eq!(
        number_op::div(Number::Int(7), Number::Int(2)),
        Ok(Number::Rational(Rational::new(7, 2)))
    );
    assert_eq!(
        number_op::div(Number::Int(8), Number::Int(2)),
        Ok(Number::Int(4))
    );
}

#[test]
fn test_sub_unary() {
    assert_eq!(number_op::sub_unary(Number::Int(5)), Ok(Number::Int(-5)));
    assert_eq!(
        number_op::sub_unary(Number::Rational(Rational::new(1, 2))),
        Ok(Number::Rational(Rational::new(-1, 2)))
    );
}

#[test]
fn test_pow_helpers_detect_overflow() {
    assert_eq!(calc::powers::pow_u64(10, 19), Some(10_000_000_000_000_000_000));
    assert_eq!(calc::powers::pow_u64(10, 20), None);
    assert_eq!(calc::powers::pow_i64(-2, 63), Some(i64::MIN));
    assert_eq!(calc::powers::pow_i64(2, 63), None);
    assert_eq!(calc::powers::pow_i64(-3, 3), Some(-27));
}

#[test]
fn test_gcd_executable() {
    assert_eq!(calc::gcd::gcd_u128(54, 24), 6);
    assert_eq!(calc::gcd::gcd_u128(0, 7), 7);
    assert_eq!(calc::gcd::gcd_u128(13, 1), 1);
}
