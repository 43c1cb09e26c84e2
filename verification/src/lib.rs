//! Exact evaluation of symbolic expressions over integers, rationals and
//! complex numbers: one rewriting step, and its iteration to a normal form.

pub mod number;
pub mod lowest_terms;
pub mod expression;
pub mod semantics;
pub mod convergence;
pub mod resolution;
pub mod context;
pub mod typ;
pub mod evaluate;
pub mod laws;

pub use crate::context::Context;
pub use crate::evaluate::Error;
pub use crate::typ::Type;
pub use crate::expression::{
    BinaryOperator, Expression, Matrix, RationalRepresentation, UnaryOperator,
};
pub use crate::number::{Complex, Integer, Rational};
