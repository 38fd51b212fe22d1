//! The expression tree and its evaluator: a post-order recursive walk that
//! applies the value algebra's operators and returns the first error.

use vstd::prelude::*;

use crate::currency::{table_wf, RateTable};
use crate::error::CalcError;
use crate::number::Number;
use crate::rational::Rational;
use crate::unit::Unit;
use crate::value::{value_wf, Value};
use crate::value_op;
use crate::value_op::{
    spec_value_add, spec_value_conversion, spec_value_div, spec_value_mul, spec_value_neg,
    spec_value_pow, spec_value_sub,
};

verus! {

/// The operation an inner tree node performs.
#[derive(Clone, Copy, Debug, PartialEq, Eq, Structural)]
pub enum OpCode {
    Negate,
    Power,
    Multiply,
    Divide,
    Add,
    Subtract,
    ConvertTo,
}

pub enum Node {
    Value(Value),
    UnaryExpr { op: OpCode, val: Box<Node> },
    BinaryExpr { op: OpCode, lhs: Box<Node>, rhs: Box<Node> },
}

/// Structural validity: leaves hold well-formed values, the only unary
/// operation is negation, and inner binary nodes carry binary operations.
pub open spec fn node_wf(n: Node) -> bool
    decreases n,
{
    match n {
        Node::Value(v) => value_wf(v),
        Node::UnaryExpr { op, val } => op == OpCode::Negate && node_wf(*val),
        Node::BinaryExpr { op, lhs, rhs } => op != OpCode::Negate && node_wf(*lhs) && node_wf(
            *rhs,
        ),
    }
}

/// The symbol an operation renders as.
pub open spec fn spec_op_symbol(op: OpCode) -> Seq<char> {
    match op {
        OpCode::Negate => "-"@,
        OpCode::Power => "^"@,
        OpCode::Multiply => "*"@,
        OpCode::Divide => "/"@,
        OpCode::Add => "+"@,
        OpCode::Subtract => "-"@,
        OpCode::ConvertTo => "to"@,
    }
}

/// The symbol an operation renders as.
pub fn op_symbol(op: OpCode) -> (r: &'static str)
    ensures
        r@ == spec_op_symbol(op),
{
    match op {
        OpCode::Negate => "-",
        OpCode::Power => "^",
        OpCode::Multiply => "*",
        OpCode::Divide => "/",
        OpCode::Add => "+",
        OpCode::Subtract => "-",
        OpCode::ConvertTo => "to",
    }
}

/// What one binary operator returns on two evaluated operands.
pub open spec fn spec_apply_binary(
    op: OpCode,
    l: Value,
    r: Value,
    rates: Seq<(u8, Rational)>,
) -> Result<Value, CalcError> {
    match op {
        OpCode::Power => spec_value_pow(l, r),
        OpCode::Multiply => spec_value_mul(l, r),
        OpCode::Divide => spec_value_div(l, r),
        OpCode::Add => spec_value_add(l, r, rates),
        OpCode::Subtract => spec_value_sub(l, r, rates),
        OpCode::ConvertTo => spec_value_conversion(l, r, rates),
        OpCode::Negate => Err(CalcError::ConversionError),
    }
}

/// Post-order evaluation: a leaf is its value; an inner node applies its
/// operator to the evaluated children; the first error is the result.
pub open spec fn spec_eval(n: Node, rates: Seq<(u8, Rational)>) -> Result<Value, CalcError>
    decreases n,
{
    match n {
        Node::Value(v) => Ok(v),
        Node::UnaryExpr { op: _, val } => match spec_eval(*val, rates) {
            Ok(v) => spec_value_neg(v),
            Err(e) => Err(e),
        },
        Node::BinaryExpr { op, lhs, rhs } => match spec_eval(*lhs, rates) {
            Ok(l) => match spec_eval(*rhs, rates) {
                Ok(r) => spec_apply_binary(op, l, r, rates),
                Err(e) => Err(e),
            },
            Err(e) => Err(e),
        },
    }
}

fn apply_binary(op: OpCode, l: Value, r: Value, rates: &RateTable) -> (res: Result<
    Value,
    CalcError,
>)
    requires
        op != OpCode::Negate,
        value_wf(l),
        value_wf(r),
        table_wf(rates),
    ensures
        res == spec_apply_binary(op, l, r, rates.rates@),
        res matches Ok(v) ==> value_wf(v),
{
    match op {
        OpCode::Power => value_op::pow(l, r),
        OpCode::Multiply => value_op::mul(l, r),
        OpCode::Divide => value_op::div(l, r),
        OpCode::Add => value_op::add(l, r, rates),
        OpCode::Subtract => value_op::sub(l, r, rates),
        OpCode::ConvertTo => value_op::conversion(l, r, rates),
        OpCode::Negate => {
            proof {
                assert(false);
            }
            Err(CalcError::ConversionError)
        },
    }
}

impl Node {
    /// A leaf node.
    pub fn value(num: Number, unit: Option<Unit>) -> (n: Node)
        ensures
            n == Node::Value(Value { num, unit }),
    {
        Node::Value(Value { num, unit })
    }

    /// Evaluate the tree, consuming it.
    pub fn eval(self, rates: &RateTable) -> (r: Result<Value, CalcError>)
        requires
            node_wf(self),
            table_wf(rates),
        ensures
            r == spec_eval(self, rates.rates@),
            r matches Ok(v) ==> value_wf(v),
        decreases self,
    {
        match self {
            Node::Value(v) => Ok(v),
            Node::UnaryExpr { op: _, val } => match (*val).eval(rates) {
                Ok(v) => value_op::sub_unary(v),
                Err(e) => Err(e),
            },
            Node::BinaryExpr { op, lhs, rhs } => match (*lhs).eval(rates) {
                Ok(l) => match (*rhs).eval(rates) {
                    Ok(r) => apply_binary(op, l, r, rates),
                    Err(e) => Err(e),
                },
                Err(e) => Err(e),
            },
        }
    }
}

/// Deep copies, so that memoized subtrees can be reused.
impl Clone for Node {
    fn clone(&self) -> (res: Self)
        ensures
            res == *self,
        decreases self,
    {
        match self {
            Node::Value(v) => Node::Value(*v),
            Node::UnaryExpr { op, val } => Node::UnaryExpr {
                op: *op,
                val: Box::new((**val).clone()),
            },
            Node::BinaryExpr { op, lhs, rhs } => Node::BinaryExpr {
                op: *op,
                lhs: Box::new((**lhs).clone()),
                rhs: Box::new((**rhs).clone()),
            },
        }
    }
}

} // verus!
