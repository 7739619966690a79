//! Expression trees: the nodes that a parser builds from tokens.

use crate::token::{LiteralType, Token};
use vstd::prelude::*;

verus! {

/// An expression.
#[derive(Debug, PartialEq, Eq)]
pub enum Expr {
    Binary(Box<Binary>),
    Grouping(Box<Grouping>),
    Literal(Literal),
    Unary(Box<Unary>),
}

/// Two operands with an operator between them.
#[derive(Debug, PartialEq, Eq)]
pub struct Binary {
    pub left: Expr,
    pub operator: Token,
    pub right: Expr,
}

/// An expression in parentheses.
#[derive(Debug, PartialEq, Eq)]
pub struct Grouping {
    pub expression: Expr,
}

/// The value of a literal: a string, a number, or none.
pub type Object = Option<LiteralType>;

/// A literal value.
#[derive(Debug, PartialEq, Eq)]
pub struct Literal {
    pub value: Object,
}

/// An operator, itself an expression, in front of its operand.
#[derive(Debug, PartialEq, Eq)]
pub struct Unary {
    pub operator: Expr,
    pub right: Expr,
}

impl Binary {
    /// Makes the node that applies `operator` to `left` and `right`.
    pub fn new(left: Expr, operator: Token, right: Expr) -> (node: Binary)
        ensures
            node == (Binary { left, operator, right }),
    {
        Binary { left, operator, right }
    }
}

impl Grouping {
    /// Makes the node that holds `expression` in parentheses.
    pub fn new(expression: Expr) -> (node: Grouping)
        ensures
            node == (Grouping { expression }),
    {
        Grouping { expression }
    }
}

impl Literal {
    /// Makes the node of the literal value `value`.
    pub fn new(value: Object) -> (node: Literal)
        ensures
            node == (Literal { value }),
    {
        Literal { value }
    }
}

impl Unary {
    /// Makes the node that applies `operator` to `right`.
    pub fn new(operator: Expr, right: Expr) -> (node: Unary)
        ensures
            node == (Unary { operator, right }),
    {
        Unary { operator, right }
    }
}

} // verus!
