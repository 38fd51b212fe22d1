//! Arithmetic on the numeric tower. Integers and rationals are combined by
//! treating an integer as a fraction over 1; after every operation a result
//! with denominator 1 collapses back to an integer.

use vstd::prelude::*;
use vstd::arithmetic::power::pow as spec_pow;

use crate::error::CalcError;
use crate::gcd::nat_abs;
use crate::number::{collapse, num_is_zero, num_wf, spec_collapse, spec_to_rational, Number};
use crate::powers::{abs_u64, pow_i64};
use crate::rational::{
    spec_rat_add, spec_rat_checked_pow, spec_rat_div, spec_rat_mul, spec_rat_neg, spec_rat_sub,
    spec_sign, Rational,
};

verus! {

pub open spec fn spec_num_add(a: Number, b: Number) -> Result<Number, CalcError> {
    match spec_rat_add(spec_to_rational(a), spec_to_rational(b)) {
        Ok(r) => Ok(spec_collapse(r)),
        Err(e) => Err(e),
    }
}

pub open spec fn spec_num_sub(a: Number, b: Number) -> Result<Number, CalcError> {
    match spec_rat_sub(spec_to_rational(a), spec_to_rational(b)) {
        Ok(r) => Ok(spec_collapse(r)),
        Err(e) => Err(e),
    }
}

pub open spec fn spec_num_mul(a: Number, b: Number) -> Result<Number, CalcError> {
    match spec_rat_mul(spec_to_rational(a), spec_to_rational(b)) {
        Ok(r) => Ok(spec_collapse(r)),
        Err(e) => Err(e),
    }
}

pub open spec fn spec_num_div(a: Number, b: Number) -> Result<Number, CalcError> {
    match spec_rat_div(spec_to_rational(a), spec_to_rational(b)) {
        Ok(r) => Ok(spec_collapse(r)),
        Err(e) => Err(e),
    }
}

pub open spec fn spec_num_neg(a: Number) -> Result<Number, CalcError> {
    match spec_rat_neg(spec_to_rational(a)) {
        Ok(r) => Ok(spec_collapse(r)),
        Err(e) => Err(e),
    }
}

/// Exact power. An integer base takes any exponent magnitude up to
/// `u32::MAX`; a rational base any exponent within `i32`. A negative
/// exponent inverts, failing with `DivByZero` on a zero base; everything
/// the exact tower cannot carry is `Inexact`.
pub open spec fn spec_num_pow(a: Number, b: Number) -> Result<Number, CalcError> {
    match b {
        Number::Rational(_) => Err(CalcError::Inexact),
        Number::Int(e) => match a {
            Number::Int(x) => {
                if nat_abs(e as int) > u32::MAX {
                    Err(CalcError::Inexact)
                } else {
                    let p = spec_pow(x as int, nat_abs(e as int));
                    if !(i64::MIN <= p <= i64::MAX) {
                        Err(CalcError::Inexact)
                    } else if e >= 0 {
                        Ok(Number::Int(p as i64))
                    } else if p == 0 {
                        Err(CalcError::DivByZero)
                    } else {
                        Ok(
                            spec_collapse(
                                Rational { num: spec_sign(p) as i64, den: nat_abs(p) as u64 },
                            ),
                        )
                    }
                }
            },
            Number::Rational(r) => {
                if !(i32::MIN <= e <= i32::MAX) {
                    Err(CalcError::Inexact)
                } else {
                    match spec_rat_checked_pow(r, e as int) {
                        Some(q) => Ok(spec_collapse(q)),
                        None => Err(CalcError::Inexact),
                    }
                }
            },
        },
    }
}

/// A successful addition is exact: seen as fractions, the result equals
/// the sum of the operands (stated by cross-multiplication).
pub proof fn lemma_num_add_exact(a: Number, b: Number)
    requires
        num_wf(a),
        num_wf(b),
    ensures
        spec_num_add(a, b) matches Ok(n) ==> num_wf(n) && spec_to_rational(n).num * (
        spec_to_rational(a).den * spec_to_rational(b).den) == (spec_to_rational(a).num
            * spec_to_rational(b).den + spec_to_rational(b).num * spec_to_rational(a).den)
            * spec_to_rational(n).den,
{
    let ra = spec_to_rational(a);
    let rb = spec_to_rational(b);
    assert(ra.den * rb.den > 0) by (nonlinear_arith)
        requires
            ra.den > 0,
            rb.den > 0,
    ;
    crate::rational::lemma_rat_make_exact(ra.num * rb.den + rb.num * ra.den, ra.den * rb.den);
}

/// A successful subtraction is exact.
pub proof fn lemma_num_sub_exact(a: Number, b: Number)
    requires
        num_wf(a),
        num_wf(b),
    ensures
        spec_num_sub(a, b) matches Ok(n) ==> num_wf(n) && spec_to_rational(n).num * (
        spec_to_rational(a).den * spec_to_rational(b).den) == (spec_to_rational(a).num
            * spec_to_rational(b).den - spec_to_rational(b).num * spec_to_rational(a).den)
            * spec_to_rational(n).den,
{
    let ra = spec_to_rational(a);
    let rb = spec_to_rational(b);
    assert(ra.den * rb.den > 0) by (nonlinear_arith)
        requires
            ra.den > 0,
            rb.den > 0,
    ;
    crate::rational::lemma_rat_make_exact(ra.num * rb.den - rb.num * ra.den, ra.den * rb.den);
}

/// A successful multiplication is exact.
pub proof fn lemma_num_mul_exact(a: Number, b: Number)
    requires
        num_wf(a),
        num_wf(b),
    ensures
        spec_num_mul(a, b) matches Ok(n) ==> num_wf(n) && spec_to_rational(n).num * (
        spec_to_rational(a).den * spec_to_rational(b).den) == (spec_to_rational(a).num
            * spec_to_rational(b).num) * spec_to_rational(n).den,
{
    let ra = spec_to_rational(a);
    let rb = spec_to_rational(b);
    assert(ra.den * rb.den > 0) by (nonlinear_arith)
        requires
            ra.den > 0,
            rb.den > 0,
    ;
    crate::rational::lemma_rat_make_exact(ra.num * rb.num, ra.den * rb.den);
}

/// A successful division is exact: the result times the divisor equals the
/// dividend (by cross-multiplication over the sign-adjusted fraction).
pub proof fn lemma_num_div_exact(a: Number, b: Number)
    requires
        num_wf(a),
        num_wf(b),
        !num_is_zero(b),
    ensures
        spec_num_div(a, b) matches Ok(n) ==> num_wf(n) && spec_to_rational(n).num * (
        spec_to_rational(a).den * nat_abs(spec_to_rational(b).num as int)) == (spec_sign(
            spec_to_rational(b).num as int,
        ) * spec_to_rational(a).num * spec_to_rational(b).den) * spec_to_rational(n).den,
{
    let ra = spec_to_rational(a);
    let rb = spec_to_rational(b);
    assert(ra.den * nat_abs(rb.num as int) > 0) by (nonlinear_arith)
        requires
            ra.den > 0,
            nat_abs(rb.num as int) > 0,
    ;
    crate::rational::lemma_rat_make_exact(
        spec_sign(rb.num as int) * ra.num * rb.den,
        ra.den * nat_abs(rb.num as int),
    );
}

pub fn add(lhs: Number, rhs: Number) -> (r: Result<Number, CalcError>)
    requires
        num_wf(lhs),
        num_wf(rhs),
    ensures
        r == spec_num_add(lhs, rhs),
        r matches Ok(n) ==> num_wf(n),
{
    let a = lhs.to_rational();
    let b = rhs.to_rational();
    match a.add(b) {
        Ok(q) => Ok(collapse(q)),
        Err(e) => Err(e),
    }
}

pub fn sub(lhs: Number, rhs: Number) -> (r: Result<Number, CalcError>)
    requires
        num_wf(lhs),
        num_wf(rhs),
    ensures
        r == spec_num_sub(lhs, rhs),
        r matches Ok(n) ==> num_wf(n),
{
    let a = lhs.to_rational();
    let b = rhs.to_rational();
    match a.sub(b) {
        Ok(q) => Ok(collapse(q)),
        Err(e) => Err(e),
    }
}

pub fn mul(lhs: Number, rhs: Number) -> (r: Result<Number, CalcError>)
    requires
        num_wf(lhs),
        num_wf(rhs),
    ensures
        r == spec_num_mul(lhs, rhs),
        r matches Ok(n) ==> num_wf(n),
{
    let a = lhs.to_rational();
    let b = rhs.to_rational();
    match a.mul(b) {
        Ok(q) => Ok(collapse(q)),
        Err(e) => Err(e),
    }
}

/// Exact division. Fails with `DivByZero` exactly when the divisor is zero,
/// in either number representation.
pub fn div(lhs: Number, rhs: Number) -> (r: Result<Number, CalcError>)
    requires
        num_wf(lhs),
        num_wf(rhs),
    ensures
        r == spec_num_div(lhs, rhs),
        r matches Ok(n) ==> num_wf(n),
        r == Err::<Number, CalcError>(CalcError::DivByZero) <==> num_is_zero(rhs),
{
    let a = lhs.to_rational();
    let b = rhs.to_rational();
    match a.div(b) {
        Ok(q) => Ok(collapse(q)),
        Err(e) => Err(e),
    }
}

/// Unary negation; variant-preserving up to the collapse rule.
pub fn sub_unary(val: Number) -> (r: Result<Number, CalcError>)
    requires
        num_wf(val),
    ensures
        r == spec_num_neg(val),
        r matches Ok(n) ==> num_wf(n),
{
    let a = val.to_rational();
    match a.neg() {
        Ok(q) => {
            proof {
                assert(nat_abs(q.num as int) == nat_abs(a.num as int));
            }
            Ok(collapse(q))
        },
        Err(e) => Err(e),
    }
}

pub fn pow(lhs: Number, rhs: Number) -> (r: Result<Number, CalcError>)
    requires
        num_wf(lhs),
        num_wf(rhs),
    ensures
        r == spec_num_pow(lhs, rhs),
        r matches Ok(n) ==> num_wf(n),
{
    match (lhs, rhs) {
        (_, Number::Rational(_)) => Err(CalcError::Inexact),
        (Number::Int(x), Number::Int(e)) => {
            let eabs: u64 = abs_u64(e);
            if eabs > u32::MAX as u64 {
                return Err(CalcError::Inexact);
            }
            match pow_i64(x, eabs as u32) {
                None => Err(CalcError::Inexact),
                Some(p) => {
                    if e >= 0 {
                        Ok(Number::Int(p))
                    } else {
                        match Rational::inverse(p) {
                            Ok(q) => Ok(collapse(q)),
                            Err(err) => Err(err),
                        }
                    }
                },
            }
        },
        (Number::Rational(a), Number::Int(e)) => {
            if e > i32::MAX as i64 || e < i32::MIN as i64 {
                return Err(CalcError::Inexact);
            }
            match a.checked_pow(e as i32) {
                Some(q) => Ok(collapse(q)),
                None => Err(CalcError::Inexact),
            }
        },
    }
}

} // verus!
