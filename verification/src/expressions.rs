//! Binary arithmetic expression grammar.  This is a standalone capability:
//! the command parser and the execution engine do not invoke it.

use crate::commands::{Primitive, SpecPrimitive};
use crate::generic::{Expected, ParseError};
use crate::numbers::{parse_i64_at, spec_parse_i64};
use vstd::prelude::*;
use vstd::string::StrSliceExecFns;

verus! {

/// A binary arithmetic operator.
#[derive(Debug, PartialEq, Eq, Clone)]
pub enum Operator {
    Add,
    Subtract,
    Divide,
    Multiply,
}

/// A binary arithmetic expression: operand, operator, operand.
pub type Expression = (ExpressionTarget, Operator, ExpressionTarget);

/// An operand: an integer literal, or a nested expression.
#[derive(Debug, PartialEq, Eq)]
pub enum ExpressionTarget {
    Val(Primitive),
    Expression(Box<Expression>),
}

/// Mathematical model of an [`Expression`].
pub type SpecExpression = (SpecExpressionTarget, Operator, SpecExpressionTarget);

/// Mathematical model of an [`ExpressionTarget`].
pub enum SpecExpressionTarget {
    Val(SpecPrimitive),
    Expression(Box<SpecExpression>),
}

pub open spec fn target_view(t: ExpressionTarget) -> SpecExpressionTarget
    decreases t,
{
    match t {
        ExpressionTarget::Val(p) => SpecExpressionTarget::Val(p@),
        ExpressionTarget::Expression(b) => SpecExpressionTarget::Expression(
            Box::new((target_view((*b).0), (*b).1, target_view((*b).2))),
        ),
    }
}

impl View for ExpressionTarget {
    type V = SpecExpressionTarget;

    open spec fn view(&self) -> SpecExpressionTarget {
        target_view(*self)
    }
}

pub open spec fn expression_view(e: Expression) -> SpecExpression {
    (e.0@, e.1, e.2@)
}

/// The four operator characters.
pub open spec fn spec_op_char(c: char) -> bool {
    c == '*' || c == '/' || c == '+' || c == '-'
}

/// The operator denoted by an operator character.
pub open spec fn op_of(c: char) -> Operator {
    if c == '+' {
        Operator::Add
    } else if c == '-' {
        Operator::Subtract
    } else if c == '/' {
        Operator::Divide
    } else {
        Operator::Multiply
    }
}

/// A two-literal expression: `integer operator integer`.
pub open spec fn spec_parse_expression(s: Seq<char>, i: int) -> Option<(int, SpecExpression)> {
    match spec_parse_i64(s, i) {
        Some((j, a)) => if j < s.len() && spec_op_char(s[j]) {
            match spec_parse_i64(s, j + 1) {
                Some((k, b)) => Some(
                    (
                        k,
                        (
                            SpecExpressionTarget::Val(SpecPrimitive::Integer(a)),
                            op_of(s[j]),
                            SpecExpressionTarget::Val(SpecPrimitive::Integer(b)),
                        ),
                    ),
                ),
                None => None,
            }
        } else {
            None
        },
        None => None,
    }
}

/// An operand: a two-literal sub-expression if one starts here, else a bare
/// integer literal.  Trying the sub-expression first makes grouping strictly
/// left-associative with no operator precedence.
pub open spec fn spec_parse_expression_target(s: Seq<char>, i: int) -> Option<
    (int, SpecExpressionTarget),
> {
    if spec_parse_expression(s, i) is Some {
        match spec_parse_expression(s, i) {
            Some((j, e)) => Some((j, SpecExpressionTarget::Expression(Box::new(e)))),
            None => None,
        }
    } else {
        match spec_parse_i64(s, i) {
            Some((j, v)) => Some((j, SpecExpressionTarget::Val(SpecPrimitive::Integer(v)))),
            None => None,
        }
    }
}

/// `operand operator operand` with a bare integer literal as the left
/// operand: the fallback used when a nested sub-expression cannot be
/// followed by the rest of the expression.
pub open spec fn spec_full_expression_from_int(s: Seq<char>, i: int) -> Option<
    (int, SpecExpression),
> {
    match spec_parse_i64(s, i) {
        Some((j, v)) => if j < s.len() && spec_op_char(s[j]) {
            match spec_parse_expression_target(s, j + 1) {
                Some((k, b)) => Some(
                    (k, (SpecExpressionTarget::Val(SpecPrimitive::Integer(v)), op_of(s[j]), b)),
                ),
                None => None,
            }
        } else {
            None
        },
        None => None,
    }
}

/// `operand operator operand`.  The parse always attempts to consume a
/// nested sub-expression as the left operand first, and falls back to a bare
/// integer when the rest of the expression cannot follow it; so `1+1` is two
/// literals, while `1+1+2` groups as `(1+1)+2`.
pub open spec fn spec_parse_full_expression(s: Seq<char>, i: int) -> Option<(int, SpecExpression)> {
    match spec_parse_expression(s, i) {
        Some((j, e)) => if j < s.len() && spec_op_char(s[j]) && spec_parse_expression_target(
            s,
            j + 1,
        ) is Some {
            match spec_parse_expression_target(s, j + 1) {
                Some((k, b)) => Some(
                    (k, (SpecExpressionTarget::Expression(Box::new(e)), op_of(s[j]), b)),
                ),
                None => None,
            }
        } else {
            spec_full_expression_from_int(s, i)
        },
        None => spec_full_expression_from_int(s, i),
    }
}

fn read_op(s: &str, j: usize) -> (r: Option<Operator>)
    requires
        j <= s@.len(),
    ensures
        match r {
            Some(o) => j < s@.len() && spec_op_char(s@[j as int]) && o == op_of(s@[j as int]),
            None => !(j < s@.len() && spec_op_char(s@[j as int])),
        },
        s@.len() <= usize::MAX,
{
    if j < s.unicode_len() {
        let c = s.get_char(j);
        if c == '+' {
            Some(Operator::Add)
        } else if c == '-' {
            Some(Operator::Subtract)
        } else if c == '/' {
            Some(Operator::Divide)
        } else if c == '*' {
            Some(Operator::Multiply)
        } else {
            None
        }
    } else {
        None
    }
}

fn parse_expression_at(s: &str, i: usize) -> (r: Result<(usize, Expression), ParseError>)
    requires
        i <= s@.len(),
    ensures
        match r {
            Ok((j, e)) => spec_parse_expression(s@, i as int) == Some(
                (j as int, expression_view(e)),
            ) && i < j <= s@.len(),
            Err(_) => spec_parse_expression(s@, i as int) is None,
        },
{
    match parse_i64_at(s, i) {
        Some((j, a)) => match read_op(s, j) {
            Some(o) => match parse_i64_at(s, j + 1) {
                Some((k, b)) => Ok(
                    (
                        k,
                        (
                            ExpressionTarget::Val(Primitive::Integer(a)),
                            o,
                            ExpressionTarget::Val(Primitive::Integer(b)),
                        ),
                    ),
                ),
                None => Err(ParseError { pos: j + 1, expected: Expected::Number }),
            },
            None => Err(ParseError { pos: j, expected: Expected::Operator }),
        },
        None => Err(ParseError { pos: i, expected: Expected::Number }),
    }
}

/// Reads a two-literal expression: `integer operator integer`.
pub fn parse_expression(s: &str) -> (r: Result<(usize, Expression), ParseError>)
    ensures
        match r {
            Ok((j, e)) => spec_parse_expression(s@, 0) == Some((j as int, expression_view(e))),
            Err(_) => spec_parse_expression(s@, 0) is None,
        },
{
    parse_expression_at(s, 0)
}

fn parse_expression_target_at(s: &str, i: usize) -> (r: Result<
    (usize, ExpressionTarget),
    ParseError,
>)
    requires
        i <= s@.len(),
    ensures
        match r {
            Ok((j, t)) => spec_parse_expression_target(s@, i as int) == Some((j as int, t@)) && i
                < j <= s@.len(),
            Err(_) => spec_parse_expression_target(s@, i as int) is None,
        },
{
    match parse_expression_at(s, i) {
        Ok((j, e)) => Ok((j, ExpressionTarget::Expression(Box::new(e)))),
        Err(_) => match parse_i64_at(s, i) {
            Some((j, v)) => Ok((j, ExpressionTarget::Val(Primitive::Integer(v)))),
            None => Err(ParseError { pos: i, expected: Expected::Number }),
        },
    }
}

fn parse_full_expression_at(s: &str, i: usize) -> (r: Result<(usize, Expression), ParseError>)
    requires
        i <= s@.len(),
    ensures
        match r {
            Ok((j, e)) => spec_parse_full_expression(s@, i as int) == Some(
                (j as int, expression_view(e)),
            ) && i < j <= s@.len(),
            Err(_) => spec_parse_full_expression(s@, i as int) is None,
        },
{
    match parse_expression_at(s, i) {
        Ok((j, e)) => {
            match read_op(s, j) {
                Some(o) => {
                    match parse_expression_target_at(s, j + 1) {
                        Ok((k, b)) => {
                            return Ok((k, (ExpressionTarget::Expression(Box::new(e)), o, b)));
                        },
                        Err(_) => {},
                    }
                },
                None => {},
            }
        },
        Err(_) => {},
    }
    // the rest of the expression cannot follow a sub-expression here: fall
    // back to a bare integer literal as the left operand
    match parse_i64_at(s, i) {
        Some((j, v)) => match read_op(s, j) {
            Some(o) => match parse_expression_target_at(s, j + 1) {
                Ok((k, b)) => Ok((k, (ExpressionTarget::Val(Primitive::Integer(v)), o, b))),
                Err(e) => Err(e),
            },
            None => Err(ParseError { pos: j, expected: Expected::Operator }),
        },
        None => Err(ParseError { pos: i, expected: Expected::Number }),
    }
}

/// Reads `operand operator operand`: a nested sub-expression is attempted as
/// the left operand before falling back to a bare integer, so `1+1+2` groups
/// as `(1+1)+2`.
pub fn parse_full_expression(s: &str) -> (r: Result<(usize, Expression), ParseError>)
    ensures
        match r {
            Ok((j, e)) => spec_parse_full_expression(s@, 0) == Some((j as int, expression_view(e))),
            Err(_) => spec_parse_full_expression(s@, 0) is None,
        },
{
    parse_full_expression_at(s, 0)
}

} // verus!
