//! What evaluation means, stated over the mathematical view of expressions:
//! the type of an expression, the result of applying an operator to operands
//! that have been rewritten, one rewriting step, and the normal form that
//! repeated steps reach.

use vstd::prelude::*;
use crate::expression::{BinaryOperator, Expr, MatrixValue, RationalRepresentation, UnaryOperator};
use crate::number::{ComplexValue, Fraction};

verus! {

/// The coarse type of an expression, by which operators decide what to do.
pub enum Tag {
    /// A number, as a complex value, with how it asks to be written.
    Number(ComplexValue, RationalRepresentation),
    /// A boolean: its value for a literal, nothing for an operator whose
    /// result is a boolean that is not known yet.
    Boolean(Option<bool>),
    Matrix(MatrixValue),
    /// Everything else.
    Arithmetic,
}

/// Why an expression cannot be evaluated.
pub enum ErrorValue {
    InvalidOperand { expression: Expr, operand: Expr },
    IncompatibleOperands { expression: Expr, operand_1: Expr, operand_2: Expr },
    DivisionByZero { expression: Expr, dividend: Expr, divisor: Expr },
    ZeroToThePowerOfZero { expression: Expr, base: Expr, exponent: Expr },
}

/// What a step or an evaluation gives: the new expression, or the error.
pub type Outcome = Result<Expr, ErrorValue>;

/// The variables' values.
pub type Bindings = Map<Seq<char>, Expr>;

impl Expr {
    /// The type of the expression, read off its outermost node.
    pub open spec fn typ(self) -> Tag {
        match self {
            Expr::Integer(n) => Tag::Number(
                ComplexValue::from_fraction(Fraction::integer(n)),
                RationalRepresentation::Fraction,
            ),
            Expr::Rational(q, representation) => Tag::Number(
                ComplexValue::from_fraction(q),
                representation,
            ),
            Expr::Complex(z, representation) => Tag::Number(z, representation),
            Expr::Matrix(m) => Tag::Matrix(m),
            Expr::Boolean(b) => Tag::Boolean(Some(b)),
            Expr::Unary(UnaryOperator::Not, _) => Tag::Boolean(None),
            Expr::Binary(operator, _, _) => if operator.is_arithmetic() {
                Tag::Arithmetic
            } else {
                Tag::Boolean(None)
            },
            _ => Tag::Arithmetic,
        }
    }

    /// No variable that `context` binds stands where a step would look it up:
    /// at the root or under operators only.
    pub open spec fn settled(self, context: Bindings) -> bool
        decreases self,
    {
        match self {
            Expr::Variable(name) => !context.contains_key(name),
            Expr::Unary(_, a) => a.settled(context),
            Expr::Binary(_, a, b) => a.settled(context) && b.settled(context),
            _ => true,
        }
    }

    /// No number that a step would reach can be written in a simpler kind: no
    /// complex number has a zero imaginary part and no rational has the
    /// denominator one, at the root or under operators.
    pub open spec fn demoted(self) -> bool
        decreases self,
    {
        match self {
            Expr::Rational(q, _) => !q.is_integer(),
            Expr::Complex(z, _) => !z.is_real(),
            Expr::Unary(_, a) => a.demoted(),
            Expr::Binary(_, a, b) => a.demoted() && b.demoted(),
            _ => true,
        }
    }

    /// How much rewriting is left in a settled expression at most: three for
    /// each operator, and one for each demotion that a number still admits.
    pub open spec fn weight(self) -> nat
        decreases self,
    {
        match self {
            Expr::Rational(q, _) => if q.is_integer() {
                1
            } else {
                0
            },
            Expr::Complex(z, _) => if !z.is_real() {
                0
            } else if z.re.is_integer() {
                2
            } else {
                1
            },
            Expr::Unary(_, a) => 3 + a.weight(),
            Expr::Binary(_, a, b) => 3 + a.weight() + b.weight(),
            _ => 0,
        }
    }
}

/// The operator does not take an operand of this type, whatever the other
/// operand is.
pub open spec fn invalid_operand(operator: BinaryOperator, tag: Tag) -> bool {
    ||| operator.is_arithmetic() && tag is Boolean
    ||| operator.is_ordering() && (tag is Matrix || tag is Boolean)
    ||| operator.is_logical() && !(tag is Boolean)
}

/// Each operand alone would do, but the operator cannot combine the two.
pub open spec fn incompatible_operands(operator: BinaryOperator, left: Tag, right: Tag) -> bool {
    ||| (operator is Sum || operator is Difference || operator.is_equality()) && (left is Number
        && right is Matrix || left is Matrix && right is Number)
    ||| operator.is_equality() && ((left is Number || left is Matrix) && right is Boolean
        || left is Boolean && (right is Number || right is Matrix))
}

/// The exponent is a whole number that an `i32` holds, and not a negative one
/// under a zero base: the power is then a number.
pub open spec fn power_is_evaluated(base: ComplexValue, exponent: ComplexValue) -> bool {
    &&& exponent.is_real()
    &&& exponent.re.is_integer()
    &&& i32::MIN <= exponent.re.numer <= i32::MAX
    &&& !(base.is_zero() && exponent.re.numer < 0)
}

/// A unary operator over an operand that has been stepped. `expression` is
/// the whole expression, `operand` the operand as it was, `stepped` the
/// operand after its step.
pub open spec fn apply_unary(
    operator: UnaryOperator,
    expression: Expr,
    operand: Expr,
    stepped: Expr,
) -> Outcome {
    match operator {
        UnaryOperator::Negation => match stepped.typ() {
            Tag::Boolean(_) => Err(ErrorValue::InvalidOperand { expression, operand }),
            Tag::Number(z, representation) => Ok(Expr::Complex(z.negation(), representation)),
            Tag::Matrix(m) => Ok(Expr::Matrix(m.negation())),
            Tag::Arithmetic => Ok(Expr::Unary(operator, Box::new(stepped))),
        },
        UnaryOperator::Not => match stepped.typ() {
            Tag::Boolean(Some(b)) => Ok(Expr::Boolean(!b)),
            Tag::Boolean(None) => Ok(Expr::Unary(operator, Box::new(stepped))),
            _ => Err(ErrorValue::InvalidOperand { expression, operand }),
        },
    }
}

/// A binary operator over two numbers. `deferred` is the operator over the
/// stepped operands, which is the result where nothing can be computed.
pub open spec fn apply_to_numbers(
    operator: BinaryOperator,
    expression: Expr,
    left: Expr,
    right: Expr,
    a: ComplexValue,
    b: ComplexValue,
    representation: RationalRepresentation,
    deferred: Expr,
) -> Outcome {
    match operator {
        BinaryOperator::Sum => Ok(Expr::Complex(a.sum(b), representation)),
        BinaryOperator::Difference => Ok(Expr::Complex(a.difference(b), representation)),
        BinaryOperator::Product => Ok(Expr::Complex(a.product(b), representation)),
        BinaryOperator::Quotient => if b.is_zero() {
            Err(ErrorValue::DivisionByZero { expression, dividend: left, divisor: right })
        } else {
            Ok(Expr::Complex(a.quotient(b), representation))
        },
        BinaryOperator::Remainder => if b.is_zero() {
            Err(ErrorValue::DivisionByZero { expression, dividend: left, divisor: right })
        } else {
            Ok(Expr::Complex(a.remainder(b), representation))
        },
        BinaryOperator::Power => if a.is_zero() && b.is_zero() {
            Err(ErrorValue::ZeroToThePowerOfZero { expression, base: left, exponent: right })
        } else if power_is_evaluated(a, b) {
            Ok(Expr::Complex(a.power(b.re.numer), representation))
        } else {
            Ok(deferred)
        },
        BinaryOperator::Equal => Ok(Expr::Boolean(a == b)),
        BinaryOperator::NotEqual => Ok(Expr::Boolean(a != b)),
        BinaryOperator::LessThan | BinaryOperator::LessThanOrEqual | BinaryOperator::GreaterThan
        | BinaryOperator::GreaterThanOrEqual => if !a.is_real() {
            Err(ErrorValue::InvalidOperand { expression, operand: left })
        } else if !b.is_real() {
            Err(ErrorValue::InvalidOperand { expression, operand: right })
        } else {
            Ok(
                Expr::Boolean(
                    match operator {
                        BinaryOperator::LessThan => a.re.less_than(b.re),
                        BinaryOperator::LessThanOrEqual => !b.re.less_than(a.re),
                        BinaryOperator::GreaterThan => b.re.less_than(a.re),
                        _ => !a.re.less_than(b.re),
                    },
                ),
            )
        },
        BinaryOperator::And | BinaryOperator::Or => Ok(deferred),
    }
}

/// A binary operator over two booleans that are known.
pub open spec fn apply_to_booleans(operator: BinaryOperator, a: bool, b: bool, deferred: Expr) -> Expr {
    match operator {
        BinaryOperator::Equal => Expr::Boolean(a == b),
        BinaryOperator::NotEqual => Expr::Boolean(a != b),
        BinaryOperator::And => Expr::Boolean(a && b),
        BinaryOperator::Or => Expr::Boolean(a || b),
        _ => deferred,
    }
}

/// A binary operator over operands that have been stepped. `expression` is
/// the whole expression, `left` and `right` the operands as they were,
/// `stepped_left` and `stepped_right` the operands after their steps.
pub open spec fn apply_binary(
    operator: BinaryOperator,
    expression: Expr,
    left: Expr,
    right: Expr,
    stepped_left: Expr,
    stepped_right: Expr,
) -> Outcome {
    let deferred = Expr::Binary(operator, Box::new(stepped_left), Box::new(stepped_right));
    if invalid_operand(operator, stepped_left.typ()) {
        Err(ErrorValue::InvalidOperand { expression, operand: left })
    } else if invalid_operand(operator, stepped_right.typ()) {
        Err(ErrorValue::InvalidOperand { expression, operand: right })
    } else if incompatible_operands(operator, stepped_left.typ(), stepped_right.typ()) {
        Err(ErrorValue::IncompatibleOperands { expression, operand_1: left, operand_2: right })
    } else {
        match (stepped_left.typ(), stepped_right.typ()) {
            (Tag::Number(a, a_representation), Tag::Number(b, b_representation)) => apply_to_numbers(
                operator,
                expression,
                left,
                right,
                a,
                b,
                a_representation.spec_merge(b_representation),
                deferred,
            ),
            (Tag::Boolean(Some(a)), Tag::Boolean(Some(b))) => Ok(
                apply_to_booleans(operator, a, b, deferred),
            ),
            _ => Ok(deferred),
        }
    }
}

/// One step on `expression`, with at most `fuel` variables looked up one
/// inside another. Nothing where a chain of bindings is longer than that.
///
/// A variable that is bound gives the step of its value, one that is not
/// stays. Rationals and complex numbers are demoted where they can be. An
/// operator steps its operands, the left one first, and is then applied;
/// the first error ends the step. Everything else stays as it is.
pub open spec fn step_within(expression: Expr, context: Bindings, fuel: nat) -> Option<Outcome>
    decreases fuel, expression,
{
    match expression {
        Expr::Variable(name) => if !context.contains_key(name) {
            Some(Ok(expression))
        } else if fuel == 0 {
            None
        } else {
            step_within(context[name], context, (fuel - 1) as nat)
        },
        Expr::Rational(q, _) => Some(
            Ok(
                if q.is_integer() {
                    Expr::Integer(q.numer)
                } else {
                    expression
                },
            ),
        ),
        Expr::Complex(z, representation) => Some(
            Ok(
                if z.is_real() {
                    Expr::Rational(z.re, representation)
                } else {
                    expression
                },
            ),
        ),
        Expr::Unary(operator, a) => match step_within(*a, context, fuel) {
            None => None,
            Some(Err(error)) => Some(Err(error)),
            Some(Ok(stepped)) => Some(apply_unary(operator, expression, *a, stepped)),
        },
        Expr::Binary(operator, a, b) => match step_within(*a, context, fuel) {
            None => None,
            Some(Err(error)) => Some(Err(error)),
            Some(Ok(stepped_left)) => match step_within(*b, context, fuel) {
                None => None,
                Some(Err(error)) => Some(Err(error)),
                Some(Ok(stepped_right)) => Some(
                    apply_binary(operator, expression, *a, *b, stepped_left, stepped_right),
                ),
            },
        },
        _ => Some(Ok(expression)),
    }
}

/// The bindings lead somewhere: a step on `expression` comes to an end. It
/// does not where a variable's value, directly or through other variables,
/// asks for the variable itself.
pub open spec fn resolvable(expression: Expr, context: Bindings) -> bool {
    exists|fuel: nat| (#[trigger] step_within(expression, context, fuel)) is Some
}

/// A number of lookups that is enough for a step on `expression`.
pub open spec fn enough_fuel(expression: Expr, context: Bindings) -> nat {
    choose|fuel: nat| (#[trigger] step_within(expression, context, fuel)) is Some
}

/// One step on a resolvable expression.
pub open spec fn step(expression: Expr, context: Bindings) -> Outcome {
    step_within(expression, context, enough_fuel(expression, context)).unwrap()
}

/// What is bound before the caller binds anything: `i`, the imaginary unit.
pub open spec fn built_in() -> Bindings {
    Map::<Seq<char>, Expr>::empty().insert(
        "i"@,
        Expr::Complex(ComplexValue::i(), RationalRepresentation::Fraction),
    )
}

/// The caller's bindings over the built-in one: a name that the caller binds
/// has the caller's value.
pub open spec fn with_built_in(context: Bindings) -> Bindings {
    built_in().union_prefer_right(context)
}

} // verus!
