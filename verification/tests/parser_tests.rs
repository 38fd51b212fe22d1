use calc::currency::RateTable;
use calc::error::CalcError;
use calc::node::{Node, OpCode};
use calc::number::Number;
use calc::parser::Parser;
use calc::rational::Rational;
use calc::token::Token;
use calc::unit::Unit;
use calc::value::Value;

fn no_rates() -> RateTable {
    RateTable { rates: Vec::new() }
}

fn parse(tokens: Vec<Token>) -> Option<Node> {
    let mut parser = Parser::new();
    parser.extend(tokens);
    parser.parse()
}

fn eval_tokens(tokens: Vec<Token>) -> Result<Value, CalcError> {
    parse(tokens).expect("expected a full parse").eval(&no_rates())
}

fn int_leaf(node: &Node) -> i64 {
    match node {
        Node::Value(Value { num: Number::Int(x), unit: None }) => *x,
        _ => panic!("expected a bare integer leaf"),
    }
}

#[test]
fn test_parse_left_associative_chain() {
    // 1+2+3+4 parses as ((1+2)+3)+4.
    let tokens = vec![
        Token::LitInt(1),
        Token::Add,
        Token::LitInt(2),
        Token::Add,
        Token::LitInt(3),
        Token::Add,
        Token::LitInt(4),
    ];
    let ast = parse(tokens).unwrap();
    match &ast {
        Node::BinaryExpr { op: OpCode::Add, lhs, rhs } => {
            assert_eq!(int_leaf(rhs), 4);
            match lhs.as_ref() {
                Node::BinaryExpr { op: OpCode::Add, lhs, rhs } => {
                    assert_eq!(int_leaf(rhs), 3);
                    match lhs.as_ref() {
                        Node::BinaryExpr { op: OpCode::Add, lhs, rhs } => {
                            assert_eq!(int_leaf(lhs), 1);
                            assert_eq!(int_leaf(rhs), 2);
                        }
                        _ => panic!("innermost addition missing"),
                    }
                }
                _ => panic!("middle addition missing"),
            }
        }
        _ => panic!("outermost addition missing"),
    }
    assert_eq!(
        ast.eval(&no_rates()),
        Ok(Value { num: Number::Int(10), unit: None })
    );
}

#[test]
fn test_subtraction_left_associative() {
    // 1-2-3-4 == ((1-2)-3)-4 == -8.
    let tokens = vec![
        Token::LitInt(1),
        Token::Sub,
        Token::LitInt(2),
        Token::Sub,
        Token::LitInt(3),
        Token::Sub,
        Token::LitInt(4),
    ];
    assert_eq!(
        eval_tokens(tokens),
        Ok(Value { num: Number::Int(-8), unit: None })
    );
}

#[test]
fn test_parens_override_precedence() {
    // (1+2)*3 == 9
    let tokens = vec![
        Token::ParBegin,
        Token::LitInt(1),
        Token::Add,
        Token::LitInt(2),
        Token::ParEnd,
        Token::Mul,
        Token::LitInt(3),
    ];
    assert_eq!(
        eval_tokens(tokens),
        Ok(Value { num: Number::Int(9), unit: None })
    );
    // 1+2*3 == 7
    let tokens = vec![
        Token::LitInt(1),
        Token::Add,
        Token::LitInt(2),
        Token::Mul,
        Token::LitInt(3),
    ];
    assert_eq!(
        eval_tokens(tokens),
        Ok(Value { num: Number::Int(7), unit: None })
    );
}

#[test]
fn test_power_right_associative_and_tight() {
    // 2^3^2 == 2^(3^2) == 512
    let tokens = vec![
        Token::LitInt(2),
        Token::Exp,
        Token::LitInt(3),
        Token::Exp,
        Token::LitInt(2),
    ];
    assert_eq!(
        eval_tokens(tokens),
        Ok(Value { num: Number::Int(512), unit: None })
    );
    // 2*3^2 == 18
    let tokens = vec![
        Token::LitInt(2),
        Token::Mul,
        Token::LitInt(3),
        Token::Exp,
        Token::LitInt(2),
    ];
    assert_eq!(
        eval_tokens(tokens),
        Ok(Value { num: Number::Int(18), unit: None })
    );
}

#[test]
fn test_trailing_paren_yields_none() {
    let tokens = vec![
        Token::LitInt(1),
        Token::Add,
        Token::LitInt(2),
        Token::ParEnd,
    ];
    assert_eq!(parse(tokens).is_none(), true);
}

#[test]
fn test_unclosed_paren_yields_none() {
    let tokens = vec![Token::ParBegin, Token::LitInt(1), Token::Add, Token::LitInt(2)];
    assert_eq!(parse(tokens).is_none(), true);
}

#[test]
fn test_empty_input_yields_none() {
    assert_eq!(parse(Vec::new()).is_none(), true);
}

#[test]
fn test_quantity_merge_feet_inches() {
    // "1 ft 6 in" evaluates to 3/2 in feet.
    let tokens = vec![
        Token::LitInt(1),
        Token::LenFeet,
        Token::LitInt(6),
        Token::LenInch,
    ];
    assert_eq!(
        eval_tokens(tokens),
        Ok(Value {
            num: Number::Rational(Rational::new(3, 2)),
            unit: Some(Unit::LenFeet),
        })
    );
}

#[test]
fn test_quantity_merge_three_pairs() {
    // "1 ft 6 in 6 in" folds left-to-right into 2 feet.
    let tokens = vec![
        Token::LitInt(1),
        Token::LenFeet,
        Token::LitInt(6),
        Token::LenInch,
        Token::LitInt(6),
        Token::LenInch,
    ];
    assert_eq!(
        eval_tokens(tokens),
        Ok(Value { num: Number::Int(2), unit: Some(Unit::LenFeet) })
    );
}

#[test]
fn test_quantity_merge_needs_common_category() {
    // "1 ft 6 kg" is no quantity chain and cannot parse as one expression.
    let tokens = vec![
        Token::LitInt(1),
        Token::LenFeet,
        Token::LitInt(6),
        Token::MassKg,
    ];
    assert_eq!(parse(tokens).is_none(), true);
}

#[test]
fn test_bare_unit_parses_as_one() {
    // "ft" alone is quantity 1 of feet.
    let tokens = vec![Token::LenFeet];
    assert_eq!(
        eval_tokens(tokens),
        Ok(Value { num: Number::Int(1), unit: Some(Unit::LenFeet) })
    );
}

#[test]
fn test_unary_minus() {
    let tokens = vec![Token::Sub, Token::LitInt(3), Token::Mul, Token::LitInt(4)];
    assert_eq!(
        eval_tokens(tokens),
        Ok(Value { num: Number::Int(-12), unit: None })
    );
}

#[test]
fn test_convert_operator() {
    // "2 km to m" == 2000 m
    let tokens = vec![
        Token::LitInt(2),
        Token::LenKm,
        Token::KwTo,
        Token::LenM,
    ];
    assert_eq!(
        eval_tokens(tokens),
        Ok(Value { num: Number::Int(2000), unit: Some(Unit::LenM) })
    );
}

#[test]
fn test_mixed_unit_addition_converts_to_left() {
    // "1 ft + 6 in" == 3/2 ft
    let tokens = vec![
        Token::LitInt(1),
        Token::LenFeet,
        Token::Add,
        Token::LitInt(6),
        Token::LenInch,
    ];
    assert_eq!(
        eval_tokens(tokens),
        Ok(Value {
            num: Number::Rational(Rational::new(3, 2)),
            unit: Some(Unit::LenFeet),
        })
    );
}

#[test]
fn test_decimal_literal_is_exact() {
    // "1.5 + 0.25" == 7/4 exactly.
    let tokens = vec![
        Token::LitRat(Rational::new(3, 2)),
        Token::Add,
        Token::LitRat(Rational::new(1, 4)),
    ];
    assert_eq!(
        eval_tokens(tokens),
        Ok(Value {
            num: Number::Rational(Rational::new(7, 4)),
            unit: None,
        })
    );
}

#[test]
fn test_eval_error_mismatched_add() {
    // A length plus a mass has no common category.
    let tree = Node::BinaryExpr {
        op: OpCode::Add,
        lhs: Box::new(Node::value(Number::Int(1), Some(Unit::LenFeet))),
        rhs: Box::new(Node::value(Number::Int(1), Some(Unit::MassKg))),
    };
    assert_eq!(tree.eval(&no_rates()), Err(CalcError::DifferentUnitTypes));
}

#[test]
fn test_eval_error_one_sided_unit_add() {
    let tree = Node::BinaryExpr {
        op: OpCode::Add,
        lhs: Box::new(Node::value(Number::Int(1), Some(Unit::LenFeet))),
        rhs: Box::new(Node::value(Number::Int(1), None)),
    };
    assert_eq!(tree.eval(&no_rates()), Err(CalcError::DifferentUnitTypes));
}

#[test]
fn test_eval_error_exponent_with_unit() {
    // "2 ^ 3 m" rejects the unit-carrying exponent.
    let tokens = vec![Token::LitInt(2), Token::Exp, Token::LitInt(3), Token::LenM];
    assert_eq!(eval_tokens(tokens), Err(CalcError::ExpByUnit));
}

#[test]
fn test_eval_error_multiply_two_units() {
    // "2 m * 3 kg" has units on both sides.
    let tokens = vec![
        Token::LitInt(2),
        Token::LenM,
        Token::Mul,
        Token::LitInt(3),
        Token::MassKg,
    ];
    assert_eq!(eval_tokens(tokens), Err(CalcError::OperateWithUnits));
}

#[test]
fn test_eval_error_convert_without_unit() {
    // "2 to m" converts a unitless value.
    let tokens = vec![Token::LitInt(2), Token::KwTo, Token::LenM];
    assert_eq!(eval_tokens(tokens), Err(CalcError::MissingUnit));
}

#[test]
fn test_eval_error_division_by_zero() {
    let tokens = vec![Token::LitInt(1), Token::Div, Token::LitInt(0)];
    assert_eq!(eval_tokens(tokens), Err(CalcError::DivByZero));
}

#[test]
fn test_eval_error_overflowing_power() {
    let tokens = vec![Token::LitInt(2), Token::Exp, Token::LitInt(200)];
    assert_eq!(eval_tokens(tokens), Err(CalcError::Inexact));
}

#[test]
fn test_eval_negative_exponent() {
    // "2^(-2)" == 1/4
    let tokens = vec![
        Token::LitInt(2),
        Token::Exp,
        Token::ParBegin,
        Token::Sub,
        Token::LitInt(2),
        Token::ParEnd,
    ];
    assert_eq!(
        eval_tokens(tokens),
        Ok(Value {
            num: Number::Rational(Rational::new(1, 4)),
            unit: None,
        })
    );
}

#[test]
fn test_currency_through_parser() {
    // "5 USD to EUR" with USD at 350 and EUR at 400 in pivot currency.
    let entries = vec![
        calc::currency::RateEntry { code: 32, unit: 1, rate: Rational::new(350, 1) },
        calc::currency::RateEntry { code: 8, unit: 1, rate: Rational::new(400, 1) },
    ];
    let table = calc::currency::to_map(entries).unwrap();
    let tokens = vec![
        Token::LitInt(5),
        Token::Curr(32),
        Token::KwTo,
        Token::Curr(8),
    ];
    let ast = parse(tokens).unwrap();
    assert_eq!(
        ast.eval(&table),
        Ok(Value {
            num: Number::Rational(Rational::new(35, 8)),
            unit: Some(Unit::Curr(8)),
        })
    );
}

#[test]
fn test_parser_reset_and_is_empty() {
    let mut parser = Parser::new();
    assert!(parser.is_empty());
    parser.extend(vec![Token::LitInt(1)]);
    assert!(!parser.is_empty());
    parser.reset();
    assert!(parser.is_empty());
}

#[test]
fn test_incremental_extend_across_lines() {
    // A partial expression fails, then completes once more tokens arrive.
    let mut parser = Parser::new();
    parser.extend(vec![Token::LitInt(1), Token::Add]);
    assert!(parser.parse().is_none());
    parser.extend(vec![Token::LitInt(2)]);
    let ast = parser.parse().unwrap();
    assert_eq!(
        ast.eval(&no_rates()),
        Ok(Value { num: Number::Int(3), unit: None })
    );
}

#[test]
fn test_invalid_token_yields_none() {
    let tokens = vec![Token::LitInt(1), Token::Add, Token::Invalid];
    assert_eq!(parse(tokens).is_none(), true);
}

#[test]
fn test_temperature_through_parser() {
    // "15 C to F" == 59 F
    let tokens = vec![
        Token::LitInt(15),
        Token::TempC,
        Token::KwTo,
        Token::TempF,
    ];
    assert_eq!(
        eval_tokens(tokens),
        Ok(Value { num: Number::Int(59), unit: Some(Unit::TempF) })
    );
}

#[test]
fn test_mixed_unit_subtraction() {
    // "1 ft - 6 in" == 1/2 ft
    let tokens = vec![
        Token::LitInt(1),
        Token::LenFeet,
        Token::Sub,
        Token::LitInt(6),
        Token::LenInch,
    ];
    assert_eq!(
        eval_tokens(tokens),
        Ok(Value {
            num: Number::Rational(Rational::new(1, 2)),
            unit: Some(Unit::LenFeet),
        })
    );
}

#[test]
fn test_negated_parenthesized_expression() {
    let tokens = vec![
        Token::Sub,
        Token::ParBegin,
        Token::LitInt(1),
        Token::Add,
        Token::LitInt(2),
        Token::ParEnd,
    ];
    assert_eq!(
        eval_tokens(tokens),
        Ok(Value { num: Number::Int(-3), unit: None })
    );
}

#[test]
fn test_modulo_token_never_parses() {
    // The tokenizer knows '%', but the grammar gives it no meaning.
    let tokens = vec![Token::LitInt(5), Token::Mod, Token::LitInt(2)];
    assert_eq!(parse(tokens).is_none(), true);
}

#[test]
fn test_lone_number_unit_pair_parses() {
    // "6 in" alone is a quantity.
    let tokens = vec![Token::LitInt(6), Token::LenInch];
    assert_eq!(
        eval_tokens(tokens),
        Ok(Value { num: Number::Int(6), unit: Some(Unit::LenInch) })
    );
    // A single literal parses too.
    let tokens = vec![Token::LitInt(42)];
    assert_eq!(
        eval_tokens(tokens),
        Ok(Value { num: Number::Int(42), unit: None })
    );
}
