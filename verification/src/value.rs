//! A `Value` pairs a number with an optional unit. A bare number is
//! dimensionless; a unit-carrying value only combines with compatible ones.

use vstd::prelude::*;

use crate::number::{num_wf, Number};
use crate::unit::{unit_wf, Unit};

verus! {

#[derive(Clone, Copy, Debug, PartialEq, Eq)]
pub struct Value {
    pub num: Number,
    pub unit: Option<Unit>,
}

pub open spec fn value_wf(v: Value) -> bool {
    num_wf(v.num) && match v.unit {
        Some(u) => unit_wf(u),
        None => true,
    }
}

impl From<i64> for Value {
    /// A dimensionless integer.
    fn from(item: i64) -> (r: Value) {
        Value { num: Number::Int(item), unit: None }
    }
}

impl vstd::std_specs::convert::FromSpecImpl<i64> for Value {
    open spec fn obeys_from_spec() -> bool {
        true
    }

    open spec fn from_spec(item: i64) -> Value {
        Value { num: Number::Int(item), unit: None }
    }
}

impl From<Unit> for Value {
    /// A bare unit stands for one of that unit.
    fn from(unit: Unit) -> (r: Value) {
        Value { num: Number::Int(1), unit: Some(unit) }
    }
}

impl vstd::std_specs::convert::FromSpecImpl<Unit> for Value {
    open spec fn obeys_from_spec() -> bool {
        true
    }

    open spec fn from_spec(unit: Unit) -> Value {
        Value { num: Number::Int(1), unit: Some(unit) }
    }
}

/// Unit labels compare structurally.
pub fn opt_unit_eq(a: &Option<Unit>, b: &Option<Unit>) -> (r: bool)
    ensures
        r <==> a == b,
{
    match (a, b) {
        (None, None) => true,
        (Some(ua), Some(ub)) => ua == ub,
        _ => false,
    }
}

} // verus!
