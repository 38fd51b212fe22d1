//! The grammar, written declaratively: `derives_expression(t, i, j, n)`
//! holds when the tree `n` is a derivation of the `Expression` rule over
//! the tokens `t[i..j)`, and likewise for the other rules. The parser is
//! proved sound against these predicates: every tree it returns derives
//! the whole input.
//!
//! ```text
//! Expression := Expression ('+'|'-') Term | '-' Term | Term
//! Term       := Term ('*'|'/') Exponent | Term 'to' Unit | Exponent
//! Exponent   := Atom '^' Exponent | Atom
//! Atom       := '(' Expression ')' | Quantity | Number Unit | Number | Unit
//! Quantity   := Quantity Number Unit | Number Unit   [same category]
//! ```

use vstd::prelude::*;

use crate::node::{Node, OpCode};
use crate::number::Number;
use crate::token::{token_number, token_unit, Token};
use crate::unit::{spec_common_type, Unit};
use crate::value::Value;

verus! {

/// A leaf node.
pub open spec fn leaf(num: Number, unit: Option<Unit>) -> Node {
    Node::Value(Value { num, unit })
}

pub open spec fn derives_expression(t: Seq<Token>, i: int, j: int, n: Node) -> bool
    decreases j - i, 4int,
{
    0 <= i && i < j && j <= t.len() && {
        ||| (match n {
            Node::BinaryExpr { op, lhs, rhs } => (op == OpCode::Add || op == OpCode::Subtract)
                && exists|mid: int|
                #![trigger t[mid]]
                i < mid < j && derives_expression(t, i, mid, *lhs) && t[mid] == (
                if op == OpCode::Add {
                    Token::Add
                } else {
                    Token::Sub
                }) && derives_term(t, mid + 1, j, *rhs),
            _ => false,
        })
        ||| (match n {
            Node::UnaryExpr { op, val } => op == OpCode::Negate && t[i] == Token::Sub
                && derives_term(t, i + 1, j, *val),
            _ => false,
        })
        ||| derives_term(t, i, j, n)
    }
}

pub open spec fn derives_term(t: Seq<Token>, i: int, j: int, n: Node) -> bool
    decreases j - i, 3int,
{
    0 <= i && i < j && j <= t.len() && {
        ||| (match n {
            Node::BinaryExpr { op, lhs, rhs } => {
                ||| ((op == OpCode::Multiply || op == OpCode::Divide) && exists|mid: int|
                    #![trigger t[mid]]
                    i < mid < j && derives_term(t, i, mid, *lhs) && t[mid] == (
                    if op == OpCode::Multiply {
                        Token::Mul
                    } else {
                        Token::Div
                    }) && derives_exponent(t, mid + 1, j, *rhs))
                ||| (op == OpCode::ConvertTo && exists|mid: int|
                    #![trigger t[mid]]
                    i < mid < j && j == mid + 2 && derives_term(t, i, mid, *lhs)
                        && t[mid] == Token::KwTo && (match token_unit(t[mid + 1]) {
                        Some(u) => *rhs == leaf(Number::Int(1), Some(u)),
                        None => false,
                    }))
            },
            _ => false,
        })
        ||| derives_exponent(t, i, j, n)
    }
}

pub open spec fn derives_exponent(t: Seq<Token>, i: int, j: int, n: Node) -> bool
    decreases j - i, 2int,
{
    0 <= i && i < j && j <= t.len() && {
        ||| (match n {
            Node::BinaryExpr { op, lhs, rhs } => op == OpCode::Power && exists|mid: int|
                #![trigger t[mid]]
                i < mid < j && derives_atom(t, i, mid, *lhs) && t[mid] == Token::Exp
                    && derives_exponent(t, mid + 1, j, *rhs),
            _ => false,
        })
        ||| derives_atom(t, i, j, n)
    }
}

pub open spec fn derives_atom(t: Seq<Token>, i: int, j: int, n: Node) -> bool
    decreases j - i, 1int,
{
    0 <= i && i < j && j <= t.len() && {
        ||| (t[i] == Token::ParBegin && t[j - 1] == Token::ParEnd && i + 1 < j - 1
            && derives_expression(t, i + 1, j - 1, n))
        ||| (exists|u: Unit| #[trigger] derives_quantity(t, i, j, n, u))
        ||| (j == i + 1 && match token_number(t[i]) {
            Some(num) => n == leaf(num, None),
            None => false,
        })
        ||| (j == i + 1 && match token_unit(t[i]) {
            Some(u) => n == leaf(Number::Int(1), Some(u)),
            None => false,
        })
    }
}

/// A quantity chain: adjacent same-category "number unit" pairs folded into
/// left-nested additions; `u` is the leftmost pair's unit, which labels the
/// whole chain.
pub open spec fn derives_quantity(t: Seq<Token>, i: int, j: int, n: Node, u: Unit) -> bool
    decreases j - i, 0int,
{
    0 <= i && i < j && j <= t.len() && {
        ||| (j == i + 2 && match (token_number(t[i]), token_unit(t[i + 1])) {
            (Some(num), Some(tu)) => u == tu && n == leaf(num, Some(tu)),
            _ => false,
        })
        ||| (match n {
            Node::BinaryExpr { op, lhs, rhs } => op == OpCode::Add && exists|mid: int|
                #![trigger t[mid]]
                i < mid && mid + 2 == j && derives_quantity(t, i, mid, *lhs, u) && (
                match (token_number(t[mid]), token_unit(t[mid + 1])) {
                    (Some(num), Some(ru)) => spec_common_type(u, ru) is Some && *rhs == leaf(
                        num,
                        Some(ru),
                    ),
                    _ => false,
                }),
            _ => false,
        })
    }
}

/// A quantity chain always spans at least one "number unit" pair.
pub proof fn lemma_quantity_span(t: Seq<Token>, i: int, j: int, n: Node, u: Unit)
    requires
        derives_quantity(t, i, j, n, u),
    ensures
        j >= i + 2,
{
}

} // verus!
