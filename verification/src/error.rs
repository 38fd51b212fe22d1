//! The calculator's error kinds. Every arithmetic, unit and evaluation
//! operation returns a success-or-error result; the first error
//! short-circuits evaluation of a whole expression tree.

use vstd::prelude::*;

verus! {

#[derive(Clone, Copy, Debug, PartialEq, Eq, Structural)]
pub enum CalcError {
    /// Division by zero, in any number representation.
    DivByZero,
    /// The exponent of a power operation carries a unit.
    ExpByUnit,
    /// Incompatible unit categories in addition, subtraction or conversion.
    DifferentUnitTypes,
    /// Both operands of a multiplication or division carry units.
    OperateWithUnits,
    /// No defined conversion path (unknown currency, unsupported
    /// temperature pair, or a unit without a base factor).
    ConversionError,
    /// The conversion operator was applied to a unitless operand.
    MissingUnit,
    /// The exact 64-bit rational tower cannot represent the result: an
    /// intermediate or final value overflows, or a power has a fractional
    /// exponent. (These are the inputs on which an inexact floating-point
    /// fallback would be needed, which this exact core does not provide.)
    Inexact,
}

} // verus!
