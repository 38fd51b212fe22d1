//! The value algebra: the operators the expression tree evaluates, pairing
//! numeric work from the tower with the unit legality and conversion rules.

use vstd::prelude::*;

use crate::currency::{table_wf, RateTable};
use crate::error::CalcError;
use crate::number_op;
use crate::number_op::{
    spec_num_add, spec_num_div, spec_num_mul, spec_num_neg, spec_num_pow, spec_num_sub,
};
use crate::rational::Rational;
use crate::unit;
use crate::unit::{spec_convert, spec_single};
use crate::value::{opt_unit_eq, value_wf, Value};

verus! {

/// The `to` operator: both operands must carry units; the left value is
/// converted into the right operand's unit.
pub open spec fn spec_value_conversion(
    lhs: Value,
    rhs: Value,
    rates: Seq<(u8, Rational)>,
) -> Result<Value, CalcError> {
    match (lhs.unit, rhs.unit) {
        (Some(lu), Some(ru)) => match spec_convert(lhs.num, lu, ru, rates) {
            Ok(n) => Ok(Value { num: n, unit: Some(ru) }),
            Err(e) => Err(e),
        },
        _ => Err(CalcError::MissingUnit),
    }
}

pub fn conversion(lhs: Value, rhs: Value, rates: &RateTable) -> (r: Result<Value, CalcError>)
    requires
        value_wf(lhs),
        value_wf(rhs),
        table_wf(rates),
    ensures
        r == spec_value_conversion(lhs, rhs, rates.rates@),
        r matches Ok(v) ==> value_wf(v),
{
    match (&lhs.unit, &rhs.unit) {
        (Some(lhs_unit), Some(rhs_unit)) => match unit::convert(lhs.num, lhs_unit, rhs_unit, rates) {
            Ok(n) => Ok(Value { num: n, unit: rhs.unit }),
            Err(e) => Err(e),
        },
        _ => Err(CalcError::MissingUnit),
    }
}

/// Power: the exponent must be unitless; the base's unit label survives.
pub open spec fn spec_value_pow(lhs: Value, rhs: Value) -> Result<Value, CalcError> {
    if rhs.unit is Some {
        Err(CalcError::ExpByUnit)
    } else {
        match spec_num_pow(lhs.num, rhs.num) {
            Ok(n) => Ok(Value { num: n, unit: lhs.unit }),
            Err(e) => Err(e),
        }
    }
}

pub fn pow(lhs: Value, rhs: Value) -> (r: Result<Value, CalcError>)
    requires
        value_wf(lhs),
        value_wf(rhs),
    ensures
        r == spec_value_pow(lhs, rhs),
        r matches Ok(v) ==> value_wf(v),
{
    if let Some(_) = rhs.unit {
        return Err(CalcError::ExpByUnit);
    }
    match number_op::pow(lhs.num, rhs.num) {
        Ok(n) => Ok(Value { num: n, unit: lhs.unit }),
        Err(e) => Err(e),
    }
}

/// Multiplication: at most one side may carry a unit, which survives.
pub open spec fn spec_value_mul(lhs: Value, rhs: Value) -> Result<Value, CalcError> {
    match spec_single(lhs.unit, rhs.unit) {
        Err(e) => Err(e),
        Ok(u) => match spec_num_mul(lhs.num, rhs.num) {
            Ok(n) => Ok(Value { num: n, unit: u }),
            Err(e) => Err(e),
        },
    }
}

pub fn mul(lhs: Value, rhs: Value) -> (r: Result<Value, CalcError>)
    requires
        value_wf(lhs),
        value_wf(rhs),
    ensures
        r == spec_value_mul(lhs, rhs),
        r matches Ok(v) ==> value_wf(v),
{
    match unit::single(lhs.unit, rhs.unit) {
        Err(e) => Err(e),
        Ok(u) => match number_op::mul(lhs.num, rhs.num) {
            Ok(n) => Ok(Value { num: n, unit: u }),
            Err(e) => Err(e),
        },
    }
}

/// Division: a zero divisor fails first, then the unit rule applies.
pub open spec fn spec_value_div(lhs: Value, rhs: Value) -> Result<Value, CalcError> {
    match spec_num_div(lhs.num, rhs.num) {
        Err(e) => Err(e),
        Ok(n) => match spec_single(lhs.unit, rhs.unit) {
            Ok(u) => Ok(Value { num: n, unit: u }),
            Err(e) => Err(e),
        },
    }
}

pub fn div(lhs: Value, rhs: Value) -> (r: Result<Value, CalcError>)
    requires
        value_wf(lhs),
        value_wf(rhs),
    ensures
        r == spec_value_div(lhs, rhs),
        r matches Ok(v) ==> value_wf(v),
{
    match number_op::div(lhs.num, rhs.num) {
        Err(e) => Err(e),
        Ok(n) => match unit::single(lhs.unit, rhs.unit) {
            Ok(u) => Ok(Value { num: n, unit: u }),
            Err(e) => Err(e),
        },
    }
}

/// Addition: identical unit labels operate directly; two different units of
/// one category convert the right side into the left unit first; one-sided
/// units are incompatible; bare numbers combine freely.
pub open spec fn spec_value_add(lhs: Value, rhs: Value, rates: Seq<(u8, Rational)>) -> Result<
    Value,
    CalcError,
> {
    if lhs.unit == rhs.unit {
        match spec_num_add(lhs.num, rhs.num) {
            Ok(n) => Ok(Value { num: n, unit: lhs.unit }),
            Err(e) => Err(e),
        }
    } else {
        match (lhs.unit, rhs.unit) {
            (Some(lu), Some(ru)) => match spec_convert(rhs.num, ru, lu, rates) {
                Ok(conv) => match spec_num_add(lhs.num, conv) {
                    Ok(n) => Ok(Value { num: n, unit: Some(lu) }),
                    Err(e) => Err(e),
                },
                Err(e) => Err(e),
            },
            _ => Err(CalcError::DifferentUnitTypes),
        }
    }
}

pub fn add(lhs: Value, rhs: Value, rates: &RateTable) -> (r: Result<Value, CalcError>)
    requires
        value_wf(lhs),
        value_wf(rhs),
        table_wf(rates),
    ensures
        r == spec_value_add(lhs, rhs, rates.rates@),
        r matches Ok(v) ==> value_wf(v),
{
    if opt_unit_eq(&lhs.unit, &rhs.unit) {
        return match number_op::add(lhs.num, rhs.num) {
            Ok(n) => Ok(Value { num: n, unit: lhs.unit }),
            Err(e) => Err(e),
        };
    }
    match (&lhs.unit, &rhs.unit) {
        (Some(lhs_unit), Some(rhs_unit)) => match unit::convert(rhs.num, rhs_unit, lhs_unit, rates) {
            Ok(conv) => match number_op::add(lhs.num, conv) {
                Ok(n) => Ok(Value { num: n, unit: lhs.unit }),
                Err(e) => Err(e),
            },
            Err(e) => Err(e),
        },
        _ => Err(CalcError::DifferentUnitTypes),
    }
}

/// Subtraction, under the same unit rules as addition.
pub open spec fn spec_value_sub(lhs: Value, rhs: Value, rates: Seq<(u8, Rational)>) -> Result<
    Value,
    CalcError,
> {
    if lhs.unit == rhs.unit {
        match spec_num_sub(lhs.num, rhs.num) {
            Ok(n) => Ok(Value { num: n, unit: lhs.unit }),
            Err(e) => Err(e),
        }
    } else {
        match (lhs.unit, rhs.unit) {
            (Some(lu), Some(ru)) => match spec_convert(rhs.num, ru, lu, rates) {
                Ok(conv) => match spec_num_sub(lhs.num, conv) {
                    Ok(n) => Ok(Value { num: n, unit: Some(lu) }),
                    Err(e) => Err(e),
                },
                Err(e) => Err(e),
            },
            _ => Err(CalcError::DifferentUnitTypes),
        }
    }
}

pub fn sub(lhs: Value, rhs: Value, rates: &RateTable) -> (r: Result<Value, CalcError>)
    requires
        value_wf(lhs),
        value_wf(rhs),
        table_wf(rates),
    ensures
        r == spec_value_sub(lhs, rhs, rates.rates@),
        r matches Ok(v) ==> value_wf(v),
{
    if opt_unit_eq(&lhs.unit, &rhs.unit) {
        return match number_op::sub(lhs.num, rhs.num) {
            Ok(n) => Ok(Value { num: n, unit: lhs.unit }),
            Err(e) => Err(e),
        };
    }
    match (&lhs.unit, &rhs.unit) {
        (Some(lhs_unit), Some(rhs_unit)) => match unit::convert(rhs.num, rhs_unit, lhs_unit, rates) {
            Ok(conv) => match number_op::sub(lhs.num, conv) {
                Ok(n) => Ok(Value { num: n, unit: lhs.unit }),
                Err(e) => Err(e),
            },
            Err(e) => Err(e),
        },
        _ => Err(CalcError::DifferentUnitTypes),
    }
}

/// Unary negation: the numeric sign flips, the unit label is unchanged.
pub open spec fn spec_value_neg(val: Value) -> Result<Value, CalcError> {
    match spec_num_neg(val.num) {
        Ok(n) => Ok(Value { num: n, unit: val.unit }),
        Err(e) => Err(e),
    }
}

pub fn sub_unary(val: Value) -> (r: Result<Value, CalcError>)
    requires
        value_wf(val),
    ensures
        r == spec_value_neg(val),
        r matches Ok(v) ==> value_wf(v),
{
    match number_op::sub_unary(val.num) {
        Ok(n) => Ok(Value { num: n, unit: val.unit }),
        Err(e) => Err(e),
    }
}

} // verus!
