//! The expression tree: a closed set of four node kinds, each owning its
//! children.

use vstd::prelude::*;
use crate::evaluate::evaluable;
use crate::printer::{check_numeral, numerals_ok};
use crate::token::{Token, TokenType};

verus! {

/// An expression node. The tree is built once by the parser and only read
/// afterwards.
#[derive(Debug, PartialEq, Eq)]
pub enum Expr {
    /// A literal: a number, a string, `true`, `false` or `nil`.
    Literal(TokenType),
    /// A parenthesised expression.
    Grouping(Box<Expr>),
    /// A prefix operator and its operand.
    Unary(Token, Box<Expr>),
    /// A left operand, an infix operator and a right operand.
    Binary(Box<Expr>, Token, Box<Expr>),
}

impl Clone for Expr {
    fn clone(&self) -> (r: Self)
        ensures
            r == *self,
        decreases self,
    {
        match self {
            Expr::Literal(t) => Expr::Literal(t.clone()),
            Expr::Grouping(e) => Expr::Grouping(Box::new((**e).clone())),
            Expr::Unary(op, e) => Expr::Unary(op.clone(), Box::new((**e).clone())),
            Expr::Binary(l, op, r) => Expr::Binary(
                Box::new((**l).clone()),
                op.clone(),
                Box::new((**r).clone()),
            ),
        }
    }
}

impl Expr {
    /// Whether the tree can be printed and evaluated: literals of literal
    /// kinds, numerals in number literals, `!` or `-` in prefix nodes and
    /// a known operator in infix nodes.
    pub fn is_evaluable(&self) -> (r: bool)
        ensures
            r == evaluable(*self),
            r ==> numerals_ok(*self),
        decreases self,
    {
        match self {
            Expr::Literal(t) => match t {
                TokenType::Number(n) => check_numeral(n),
                TokenType::String(_) | TokenType::True | TokenType::False | TokenType::Nil => true,
                _ => false,
            },
            Expr::Grouping(inner) => inner.is_evaluable(),
            Expr::Unary(op, right) => match op.ttype {
                TokenType::Bang | TokenType::Minus => right.is_evaluable(),
                _ => false,
            },
            Expr::Binary(left, op, right) => match op.ttype {
                TokenType::BangEqual | TokenType::EqualEqual | TokenType::Greater
                | TokenType::GreaterEqual | TokenType::Less | TokenType::LessEqual
                | TokenType::Minus | TokenType::Plus | TokenType::Slash | TokenType::Star => {
                    left.is_evaluable() && right.is_evaluable()
                },
                _ => false,
            },
        }
    }
}

} // verus!
