//! The evaluator: a recursive walk of the expression tree that applies the
//! language's operator rules to dynamically typed values.
//!
//! The evaluator is generic over its numbers: an implementation of
//! [`Numeric`] turns a number literal's text into a number and supplies the
//! arithmetic and the comparisons. What the evaluator itself decides (which
//! operator applies to which operand types, string concatenation and
//! equality, truthiness of non-numbers, the errors) is proved here for every
//! such implementation.

use vstd::prelude::*;

use crate::ast::Expr;
use crate::token::{Literal, Token, TokenType};

verus! {

/// The numbers of the language.
pub trait Numeric: Sized {
    /// The number written by `text`, the decimal text of a number literal.
    fn from_literal(text: &str) -> Self;

    fn negated(&self) -> Self;

    fn sum(&self, other: &Self) -> Self;

    fn difference(&self, other: &Self) -> Self;

    fn product(&self, other: &Self) -> Self;

    fn quotient(&self, other: &Self) -> Self;

    fn greater(&self, other: &Self) -> bool;

    fn greater_equal(&self, other: &Self) -> bool;

    fn less(&self, other: &Self) -> bool;

    fn less_equal(&self, other: &Self) -> bool;

    fn equal(&self, other: &Self) -> bool;

    /// Whether the number is strictly greater than zero.
    fn is_positive(&self) -> bool;
}

pub struct Interpreter;

/// A runtime value.
#[derive(Debug, PartialEq)]
pub enum IntrResult<N> {
    Number(N),
    String(String),
    Bool(bool),
    Nil,
}

#[derive(Debug, PartialEq)]
pub enum IntrError {
    Runtime(Token, String),
    Unsupported(Token),
    NotImplemented(Token),
}

/// What evaluation yields, as far as it does not depend on the numbers
/// themselves: a number, a string, a boolean that is known, a boolean that
/// some number comparison decided, or nil.
pub enum Outcome {
    Number,
    Text(Seq<char>),
    Truth(bool),
    NumericTruth,
    Nil,
}

/// The outcome of a literal.
pub open spec fn literal_outcome(l: Literal) -> Outcome {
    match l {
        Literal::String(s) => Outcome::Text(s@),
        Literal::Number(_) => Outcome::Number,
        Literal::True => Outcome::Truth(true),
        Literal::False => Outcome::Truth(false),
        Literal::Nil => Outcome::Nil,
    }
}

/// The outcome of a prefix operator of kind `op` on `operand`, or `None`
/// where the operator does not apply. `!` is total: a number is truthy when
/// it is positive, nil is falsy, a string is truthy.
pub open spec fn unary_outcome(op: TokenType, operand: Outcome) -> Option<Outcome> {
    if op == TokenType::Bang {
        match operand {
            Outcome::Number => Some(Outcome::NumericTruth),
            Outcome::Truth(b) => Some(Outcome::Truth(!b)),
            Outcome::NumericTruth => Some(Outcome::NumericTruth),
            Outcome::Nil => Some(Outcome::Truth(false)),
            Outcome::Text(_) => Some(Outcome::Truth(true)),
        }
    } else if op == TokenType::Minus && operand is Number {
        Some(Outcome::Number)
    } else {
        None
    }
}

/// The outcome of a binary operator of kind `op` on `left` and `right`, or
/// `None` where the operator does not apply to that pair. `!=` compares as
/// `==` does, on numbers and on strings only.
pub open spec fn binary_outcome(op: TokenType, left: Outcome, right: Outcome) -> Option<Outcome> {
    match (left, right) {
        (Outcome::Number, Outcome::Number) => if op == TokenType::Minus || op == TokenType::Slash
            || op == TokenType::Star || op == TokenType::Plus {
            Some(Outcome::Number)
        } else if op == TokenType::Greater || op == TokenType::GreaterEqual || op == TokenType::Less
            || op == TokenType::LessEqual || op == TokenType::EqualEqual || op
            == TokenType::BangEqual {
            Some(Outcome::NumericTruth)
        } else {
            None
        },
        (Outcome::Text(a), Outcome::Text(b)) => if op == TokenType::Plus {
            Some(Outcome::Text(a + b))
        } else if op == TokenType::EqualEqual || op == TokenType::BangEqual {
            Some(Outcome::Truth(a == b))
        } else {
            None
        },
        (Outcome::Nil, Outcome::Nil) => if op == TokenType::EqualEqual {
            Some(Outcome::Truth(true))
        } else {
            None
        },
        _ => None,
    }
}

/// The outcome of evaluating `e`, or the operator token of the first
/// operator (operands first, left to right) that does not apply.
pub open spec fn eval(e: Expr) -> Result<Outcome, Token>
    decreases e,
{
    match e {
        Expr::Binary(left, operator, right) => match eval(*left) {
            Ok(l) => match eval(*right) {
                Ok(r) => match binary_outcome(operator.token_type, l, r) {
                    Some(o) => Ok(o),
                    None => Err(operator),
                },
                Err(t) => Err(t),
            },
            Err(t) => Err(t),
        },
        Expr::Grouping(inner) => eval(*inner),
        Expr::Literal(l) => Ok(literal_outcome(l)),
        Expr::Unary(operator, right) => match eval(*right) {
            Ok(o) => match unary_outcome(operator.token_type, o) {
                Some(u) => Ok(u),
                None => Err(operator),
            },
            Err(t) => Err(t),
        },
    }
}

/// Whether the value `v` is described by the outcome `o`.
pub open spec fn value_matches<N>(v: IntrResult<N>, o: Outcome) -> bool {
    match (v, o) {
        (IntrResult::Number(_), Outcome::Number) => true,
        (IntrResult::String(s), Outcome::Text(t)) => s@ == t,
        (IntrResult::Bool(b), Outcome::Truth(t)) => b == t,
        (IntrResult::Bool(_), Outcome::NumericTruth) => true,
        (IntrResult::Nil, Outcome::Nil) => true,
        _ => false,
    }
}

/// Whether `r` is what evaluating to `expected` gives.
pub open spec fn evaluated_as<N>(
    r: Result<IntrResult<N>, IntrError>,
    expected: Result<Outcome, Token>,
) -> bool {
    match expected {
        Ok(o) => r matches Ok(v) && value_matches(v, o),
        Err(t) => r == Err::<IntrResult<N>, IntrError>(IntrError::Unsupported(t)),
    }
}

/// Applies the binary operator `operator` to two values.
fn apply_binary<N: Numeric>(operator: &Token, left: IntrResult<N>, right: IntrResult<N>) -> (r:
    Result<IntrResult<N>, IntrError>)
    ensures
        forall|l: Outcome, o: Outcome|
            value_matches(left, l) && value_matches(right, o) ==> evaluated_as(
                r,
                match binary_outcome(operator.token_type, l, o) {
                    Some(u) => Ok(u),
                    None => Err(*operator),
                },
            ),
{
    match (operator.token_type, left, right) {
        (TokenType::Minus, IntrResult::Number(l), IntrResult::Number(r)) => Ok(
            IntrResult::Number(l.difference(&r)),
        ),
        (TokenType::Slash, IntrResult::Number(l), IntrResult::Number(r)) => Ok(
            IntrResult::Number(l.quotient(&r)),
        ),
        (TokenType::Star, IntrResult::Number(l), IntrResult::Number(r)) => Ok(
            IntrResult::Number(l.product(&r)),
        ),
        (TokenType::Plus, IntrResult::Number(l), IntrResult::Number(r)) => Ok(
            IntrResult::Number(l.sum(&r)),
        ),
        (TokenType::Plus, IntrResult::String(l), IntrResult::String(r)) => Ok(
            IntrResult::String(l.concat(r.as_str())),
        ),
        (TokenType::Greater, IntrResult::Number(l), IntrResult::Number(r)) => Ok(
            IntrResult::Bool(l.greater(&r)),
        ),
        (TokenType::GreaterEqual, IntrResult::Number(l), IntrResult::Number(r)) => Ok(
            IntrResult::Bool(l.greater_equal(&r)),
        ),
        (TokenType::Less, IntrResult::Number(l), IntrResult::Number(r)) => Ok(
            IntrResult::Bool(l.less(&r)),
        ),
        (TokenType::LessEqual, IntrResult::Number(l), IntrResult::Number(r)) => Ok(
            IntrResult::Bool(l.less_equal(&r)),
        ),
        (TokenType::EqualEqual, IntrResult::Number(l), IntrResult::Number(r)) => Ok(
            IntrResult::Bool(l.equal(&r)),
        ),
        (TokenType::EqualEqual, IntrResult::String(l), IntrResult::String(r)) => Ok(
            IntrResult::Bool(l == r),
        ),
        (TokenType::EqualEqual, IntrResult::Nil, IntrResult::Nil) => Ok(IntrResult::Bool(true)),
        (TokenType::BangEqual, IntrResult::Number(l), IntrResult::Number(r)) => Ok(
            IntrResult::Bool(l.equal(&r)),
        ),
        (TokenType::BangEqual, IntrResult::String(l), IntrResult::String(r)) => Ok(
            IntrResult::Bool(l == r),
        ),
        _ => Err(IntrError::Unsupported(operator.clone())),
    }
}

/// Applies the prefix operator `operator` to a value.
fn apply_unary<N: Numeric>(operator: &Token, operand: IntrResult<N>) -> (r: Result<
    IntrResult<N>,
    IntrError,
>)
    ensures
        forall|o: Outcome|
            value_matches(operand, o) ==> evaluated_as(
                r,
                match unary_outcome(operator.token_type, o) {
                    Some(u) => Ok(u),
                    None => Err(*operator),
                },
            ),
{
    match (operator.token_type, operand) {
        (TokenType::Bang, IntrResult::Number(number)) => Ok(IntrResult::Bool(number.is_positive())),
        (TokenType::Bang, IntrResult::Bool(value)) => Ok(IntrResult::Bool(!value)),
        (TokenType::Bang, IntrResult::Nil) => Ok(IntrResult::Bool(false)),
        (TokenType::Bang, _) => Ok(IntrResult::Bool(true)),
        (TokenType::Minus, IntrResult::Number(number)) => Ok(IntrResult::Number(number.negated())),
        _ => Err(IntrError::Unsupported(operator.clone())),
    }
}

impl Interpreter {
    /// Evaluates `expr`. The value has the kind that `eval` gives, and is
    /// exactly what `eval` gives wherever that does not depend on the
    /// numbers' own arithmetic or comparisons; an error is the unsupported
    /// operator that `eval` names.
    pub fn evaluate<N: Numeric>(&mut self, expr: &Expr) -> (r: Result<IntrResult<N>, IntrError>)
        ensures
            evaluated_as(r, eval(*expr)),
        decreases expr,
    {
        match expr {
            Expr::Binary(left, operator, right) => {
                let l = match self.evaluate(left) {
                    Ok(v) => v,
                    Err(e) => return Err(e),
                };
                let r = match self.evaluate(right) {
                    Ok(v) => v,
                    Err(e) => return Err(e),
                };
                apply_binary(operator, l, r)
            },
            Expr::Grouping(inner) => self.evaluate(inner),
            Expr::Unary(operator, right) => {
                let v = match self.evaluate(right) {
                    Ok(v) => v,
                    Err(e) => return Err(e),
                };
                apply_unary(operator, v)
            },
            Expr::Literal(l) => match l {
                Literal::String(value) => Ok(IntrResult::String(value.clone())),
                Literal::Number(text) => Ok(IntrResult::Number(N::from_literal(text.as_str()))),
                Literal::True => Ok(IntrResult::Bool(true)),
                Literal::False => Ok(IntrResult::Bool(false)),
                Literal::Nil => Ok(IntrResult::Nil),
            },
        }
    }
}

} // verus!
