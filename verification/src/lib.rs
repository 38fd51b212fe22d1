//! An exact-arithmetic calculator core: a rational/integer numeric tower,
//! a physical-unit algebra with conversions, a small expression AST with a
//! recursive evaluator, and a packrat parser with support for left-recursive
//! grammar rules via seed growing.

use vstd::prelude::*;

pub mod currency;
pub mod error;
pub mod gcd;
pub mod grammar;
pub mod node;
pub mod number;
pub mod number_op;
pub mod parser;
pub mod powers;
pub mod rational;
pub mod token;
pub mod unit;
pub mod value;
pub mod value_op;

verus! {

} // verus!
