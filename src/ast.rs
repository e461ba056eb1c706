//! The expression tree and its parenthesised display form.

use vstd::prelude::*;

use crate::token::{Literal, Token};

verus! {

/// An expression node; each inner node owns its children.
#[derive(Debug)]
pub enum Expr {
    Binary(Box<Expr>, Token, Box<Expr>),
    Grouping(Box<Expr>),
    Literal(Literal),
    Unary(Token, Box<Expr>),
}

pub fn binary(left: Expr, operator: Token, right: Expr) -> (r: Expr)
    ensures
        r == Expr::Binary(Box::new(left), operator, Box::new(right)),
{
    Expr::Binary(Box::new(left), operator, Box::new(right))
}

pub fn grouping(expr: Expr) -> (r: Expr)
    ensures
        r == Expr::Grouping(Box::new(expr)),
{
    Expr::Grouping(Box::new(expr))
}

pub fn literal(value: Literal) -> (r: Expr)
    ensures
        r == Expr::Literal(value),
{
    Expr::Literal(value)
}

pub fn unary(operator: Token, right: Expr) -> (r: Expr)
    ensures
        r == Expr::Unary(operator, Box::new(right)),
{
    Expr::Unary(operator, Box::new(right))
}

/// How a literal is displayed: a string or a number as its text, the other
/// literals as their keyword.
pub open spec fn literal_display(l: Literal) -> Seq<char> {
    match l {
        Literal::String(s) => s@,
        Literal::Number(s) => s@,
        Literal::True => "true"@,
        Literal::False => "false"@,
        Literal::Nil => "nil"@,
    }
}

/// The display form of an expression: each operator node in prefix form
/// inside parentheses, each grouping as `(group ...)`.
pub open spec fn display(e: Expr) -> Seq<char>
    decreases e,
{
    match e {
        Expr::Binary(left, operator, right) => "("@ + operator.lexeme@ + " "@ + display(*left)
            + " "@ + display(*right) + ")"@,
        Expr::Grouping(inner) => "(group "@ + display(*inner) + ")"@,
        Expr::Literal(l) => literal_display(l),
        Expr::Unary(operator, right) => "("@ + operator.lexeme@ + " "@ + display(*right) + ")"@,
    }
}

/// A binary node displays as its operator's lexeme followed by its two
/// operands, all inside parentheses.
pub proof fn lemma_display_binary(left: Expr, operator: Token, right: Expr)
    ensures
        display(Expr::Binary(Box::new(left), operator, Box::new(right))) == "("@
            + operator.lexeme@ + " "@ + display(left) + " "@ + display(right) + ")"@,
{
}

/// A grouping displays as `(group `, its inner expression and `)`.
pub proof fn lemma_display_grouping(inner: Expr)
    ensures
        display(Expr::Grouping(Box::new(inner))) == "(group "@ + display(inner) + ")"@,
{
}

fn literal_text(l: &Literal) -> (r: String)
    ensures
        r@ == literal_display(*l),
{
    match l {
        Literal::String(s) => s.clone(),
        Literal::Number(s) => s.clone(),
        Literal::True => "true".to_owned(),
        Literal::False => "false".to_owned(),
        Literal::Nil => "nil".to_owned(),
    }
}

impl Expr {
    /// The display form of the expression.
    pub fn to_string(&self) -> (r: String)
        ensures
            r@ == display(*self),
        decreases self,
    {
        match self {
            Expr::Binary(left, operator, right) => {
                let mut s = "(".to_owned();
                s.append(operator.lexeme.as_str());
                s.append(" ");
                s.append(left.to_string().as_str());
                s.append(" ");
                s.append(right.to_string().as_str());
                s.append(")");
                s
            },
            Expr::Grouping(inner) => {
                let mut s = "(group ".to_owned();
                s.append(inner.to_string().as_str());
                s.append(")");
                s
            },
            Expr::Literal(l) => literal_text(l),
            Expr::Unary(operator, right) => {
                let mut s = "(".to_owned();
                s.append(operator.lexeme.as_str());
                s.append(" ");
                s.append(right.to_string().as_str());
                s.append(")");
                s
            },
        }
    }
}

} // verus!
