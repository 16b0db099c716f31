use tiny_basic::commands::Primitive;
use tiny_basic::expressions::{
    parse_expression, parse_full_expression, Expression, ExpressionTarget, Operator,
};

#[test]
fn it_parses_a_simple_expression() {
    let input = "1+1";
    let expected: Expression = (
        ExpressionTarget::Val(Primitive::Integer(1)),
        Operator::Add,
        ExpressionTarget::Val(Primitive::Integer(1)),
    );
    let (_, result) = parse_full_expression(input).unwrap();
    assert_eq!(expected, result);
}

#[test]
fn it_parses_a_subtraction_expression() {
    let input = "1-1";
    let expected: Expression = (
        ExpressionTarget::Val(Primitive::Integer(1)),
        Operator::Subtract,
        ExpressionTarget::Val(Primitive::Integer(1)),
    );
    let (_, result) = parse_full_expression(input).unwrap();
    assert_eq!(expected, result);
}

#[test]
fn it_parses_a_left_hand_subexpression() {
    let input = "1+1+2";
    let expected: Expression = (
        ExpressionTarget::Expression(Box::new((
            ExpressionTarget::Val(Primitive::Integer(1)),
            Operator::Add,
            ExpressionTarget::Val(Primitive::Integer(1)),
        ))),
        Operator::Add,
        ExpressionTarget::Val(Primitive::Integer(2)),
    );

    let (_, result) = parse_full_expression(input).unwrap();
    assert_eq!(expected, result);
}

#[test]
fn it_parses_multiplication_and_division_operators() {
    let (_, product) = parse_expression("3*4").unwrap();
    assert_eq!(
        (
            ExpressionTarget::Val(Primitive::Integer(3)),
            Operator::Multiply,
            ExpressionTarget::Val(Primitive::Integer(4)),
        ),
        product
    );
    let (_, quotient) = parse_expression("8/2").unwrap();
    assert_eq!(
        (
            ExpressionTarget::Val(Primitive::Integer(8)),
            Operator::Divide,
            ExpressionTarget::Val(Primitive::Integer(2)),
        ),
        quotient
    );
}

#[test]
fn it_fails_an_expression_without_an_operator() {
    assert!(parse_expression("12").is_err());
    assert!(parse_full_expression("12").is_err());
}

#[test]
fn it_fails_an_expression_with_a_missing_operand() {
    assert!(parse_expression("1+").is_err());
    assert!(parse_full_expression("+2").is_err());
}
