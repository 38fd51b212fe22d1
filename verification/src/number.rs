//! The numeric tower: exact 64-bit integers and exact rationals. A rational
//! whose reduced denominator is 1 is always collapsed back to an integer.

use vstd::prelude::*;

use crate::gcd::nat_abs;
use crate::rational::{rat_wf, Rational};

verus! {

#[derive(Clone, Copy, Debug, PartialEq, Eq, Structural)]
pub enum Number {
    Int(i64),
    Rational(Rational),
}

/// Well-formedness: a `Rational` variant is reduced, has a positive
/// denominator, and is not a disguised integer.
pub open spec fn num_wf(n: Number) -> bool {
    match n {
        Number::Int(_) => true,
        Number::Rational(r) => rat_wf(r) && r.den != 1,
    }
}

/// Every number, seen as a fraction.
pub open spec fn spec_to_rational(n: Number) -> Rational {
    match n {
        Number::Int(x) => Rational { num: x, den: 1 },
        Number::Rational(r) => r,
    }
}

/// A number is zero exactly when its numerator is.
pub open spec fn num_is_zero(n: Number) -> bool {
    spec_to_rational(n).num == 0
}

/// Fold a reduced fraction with denominator 1 back into an integer.
pub open spec fn spec_collapse(r: Rational) -> Number {
    if r.den == 1 {
        Number::Int(r.num)
    } else {
        Number::Rational(r)
    }
}

impl From<i64> for Number {
    fn from(item: i64) -> (r: Number) {
        Number::Int(item)
    }
}

impl vstd::std_specs::convert::FromSpecImpl<i64> for Number {
    open spec fn obeys_from_spec() -> bool {
        true
    }

    open spec fn from_spec(item: i64) -> Number {
        Number::Int(item)
    }
}

impl Number {
    /// The fraction a number stands for.
    pub fn to_rational(self) -> (r: Rational)
        requires
            num_wf(self),
        ensures
            r == spec_to_rational(self),
            rat_wf(r),
    {
        match self {
            Number::Int(x) => {
                proof {
                    crate::gcd::lemma_gcd_one_right(nat_abs(x as int));
                }
                Rational { num: x, den: 1 }
            },
            Number::Rational(r) => r,
        }
    }
}

/// Fold a reduced fraction with denominator 1 back into an integer.
pub fn collapse(r: Rational) -> (n: Number)
    requires
        rat_wf(r),
    ensures
        n == spec_collapse(r),
        num_wf(n),
{
    if r.den == 1 {
        Number::Int(r.num)
    } else {
        Number::Rational(r)
    }
}

} // verus!
