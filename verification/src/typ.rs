//! The type of an expression, by which operators decide what to do.

use vstd::prelude::*;
use crate::expression::{BinaryOperator, Expression, Matrix, RationalRepresentation, UnaryOperator};
use crate::number::{Complex, Rational};
use crate::semantics::Tag;

verus! {

/// The type of an expression, with the number or matrix that it holds.
#[derive(Debug)]
pub enum Type {
    Number(Complex, RationalRepresentation),
    Boolean(Option<bool>),
    Matrix(Matrix),
    Arithmetic,
}

impl View for Type {
    type V = Tag;

    open spec fn view(&self) -> Tag {
        match self {
            Type::Number(z, representation) => Tag::Number(z@, *representation),
            Type::Boolean(b) => Tag::Boolean(*b),
            Type::Matrix(m) => Tag::Matrix(m@),
            Type::Arithmetic => Tag::Arithmetic,
        }
    }
}

impl Expression {
    /// The type of the expression, read off its outermost node.
    pub fn typ(&self) -> (t: Type)
        ensures
            t@ == self@.typ(),
    {
        match self {
            Expression::Integer(n) => Type::Number(
                Complex::from_rational(Rational::from_integer(n.clone())),
                RationalRepresentation::Fraction,
            ),
            Expression::Rational(q, representation) => Type::Number(
                Complex::from_rational(q.clone()),
                *representation,
            ),
            Expression::Complex(z, representation) => Type::Number(z.clone(), *representation),
            Expression::Matrix(m) => Type::Matrix(m.clone()),
            Expression::Boolean(b) => Type::Boolean(Some(*b)),
            Expression::Unary(operator, _) => match operator {
                UnaryOperator::Not => Type::Boolean(None),
                UnaryOperator::Negation => Type::Arithmetic,
            },
            Expression::Binary(operator, _, _) => match operator {
                BinaryOperator::Sum
                | BinaryOperator::Difference
                | BinaryOperator::Product
                | BinaryOperator::Quotient
                | BinaryOperator::Remainder
                | BinaryOperator::Power => Type::Arithmetic,
                _ => Type::Boolean(None),
            },
            _ => Type::Arithmetic,
        }
    }
}

} // verus!
