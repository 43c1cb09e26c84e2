//! Evaluation: one rewriting step on an expression, and the repetition of
//! steps until the expression no longer changes.

use vstd::prelude::*;
use vstd::std_specs::cmp::PartialEqSpecImpl;
use crate::context::Context;
use crate::convergence::{
    lemma_fixed_point_demoted, lemma_settled_resolves, lemma_step_progress, lemma_step_settles,
    normal_form, stage,
};
use crate::expression::{BinaryOperator, Expression, RationalRepresentation, UnaryOperator};
use crate::laws::law_step_is_independent_of_fuel;
use crate::number::{
    complex_add, complex_div, complex_mul, complex_neg, complex_powi, complex_rem, complex_sub,
    Complex,
};
use crate::resolution::lemma_lookups_nest_no_deeper_than_bindings;
use crate::semantics::{
    apply_binary, apply_to_numbers, apply_unary, enough_fuel, incompatible_operands,
    invalid_operand, resolvable, step_within, with_built_in, ErrorValue, Outcome,
};
use crate::typ::Type;

verus! {

/// Error that occurred while trying to evaluate an expression.
#[derive(Debug)]
pub enum Error {
    /// Operation on an expression that the operation is not defined for.
    InvalidOperand { expression: Expression, operand: Expression },
    /// Operation on two expressions that cannot be combined using the operation.
    IncompatibleOperands { expression: Expression, operand_1: Expression, operand_2: Expression },
    /// Division by an expression that evaluates to zero.
    DivisionByZero { expression: Expression, dividend: Expression, divisor: Expression },
    /// An expression that evaluates to zero raised to the power of another
    /// expression that evaluates to zero.
    ZeroToThePowerOfZero { expression: Expression, base: Expression, exponent: Expression },
}

impl View for Error {
    type V = ErrorValue;

    open spec fn view(&self) -> ErrorValue {
        match self {
            Error::InvalidOperand { expression, operand } => ErrorValue::InvalidOperand {
                expression: expression@,
                operand: operand@,
            },
            Error::IncompatibleOperands {
                expression,
                operand_1,
                operand_2,
            } => ErrorValue::IncompatibleOperands {
                expression: expression@,
                operand_1: operand_1@,
                operand_2: operand_2@,
            },
            Error::DivisionByZero { expression, dividend, divisor } => ErrorValue::DivisionByZero {
                expression: expression@,
                dividend: dividend@,
                divisor: divisor@,
            },
            Error::ZeroToThePowerOfZero {
                expression,
                base,
                exponent,
            } => ErrorValue::ZeroToThePowerOfZero {
                expression: expression@,
                base: base@,
                exponent: exponent@,
            },
        }
    }
}

impl Clone for Error {
    fn clone(&self) -> (copy: Error)
        ensures
            copy@ == self@,
    {
        match self {
            Error::InvalidOperand { expression, operand } => Error::InvalidOperand {
                expression: expression.duplicate(),
                operand: operand.duplicate(),
            },
            Error::IncompatibleOperands {
                expression,
                operand_1,
                operand_2,
            } => Error::IncompatibleOperands {
                expression: expression.duplicate(),
                operand_1: operand_1.duplicate(),
                operand_2: operand_2.duplicate(),
            },
            Error::DivisionByZero { expression, dividend, divisor } => Error::DivisionByZero {
                expression: expression.duplicate(),
                dividend: dividend.duplicate(),
                divisor: divisor.duplicate(),
            },
            Error::ZeroToThePowerOfZero {
                expression,
                base,
                exponent,
            } => Error::ZeroToThePowerOfZero {
                expression: expression.duplicate(),
                base: base.duplicate(),
                exponent: exponent.duplicate(),
            },
        }
    }
}

impl PartialEq for Error {
    fn eq(&self, other: &Error) -> (same: bool) {
        match self {
            Error::InvalidOperand { expression, operand } => match other {
                Error::InvalidOperand {
                    expression: other_expression,
                    operand: other_operand,
                } => expression.same(other_expression) && operand.same(other_operand),
                _ => false,
            },
            Error::IncompatibleOperands { expression, operand_1, operand_2 } => match other {
                Error::IncompatibleOperands {
                    expression: other_expression,
                    operand_1: other_operand_1,
                    operand_2: other_operand_2,
                } => expression.same(other_expression) && operand_1.same(other_operand_1)
                    && operand_2.same(other_operand_2),
                _ => false,
            },
            Error::DivisionByZero { expression, dividend, divisor } => match other {
                Error::DivisionByZero {
                    expression: other_expression,
                    dividend: other_dividend,
                    divisor: other_divisor,
                } => expression.same(other_expression) && dividend.same(other_dividend)
                    && divisor.same(other_divisor),
                _ => false,
            },
            Error::ZeroToThePowerOfZero { expression, base, exponent } => match other {
                Error::ZeroToThePowerOfZero {
                    expression: other_expression,
                    base: other_base,
                    exponent: other_exponent,
                } => expression.same(other_expression) && base.same(other_base) && exponent.same(
                    other_exponent,
                ),
                _ => false,
            },
        }
    }
}

impl PartialEqSpecImpl for Error {
    open spec fn obeys_eq_spec() -> bool {
        true
    }

    open spec fn eq_spec(&self, other: &Error) -> bool {
        self@ == other@
    }
}

/// What a result stands for.
pub open spec fn outcome(result: Result<Expression, Error>) -> Outcome {
    match result {
        Ok(expression) => Ok(expression@),
        Err(error) => Err(error@),
    }
}

/// What the result of a step within a limit stands for.
pub open spec fn outcome_within(result: Option<Result<Expression, Error>>) -> Option<Outcome> {
    match result {
        Some(found) => Some(outcome(found)),
        None => None,
    }
}

/// Whether the operator refuses an operand of this type.
fn is_invalid_operand(operator: BinaryOperator, operand: &Type) -> (invalid: bool)
    ensures
        invalid == invalid_operand(operator, operand@),
{
    match operator {
        BinaryOperator::Sum
        | BinaryOperator::Difference
        | BinaryOperator::Product
        | BinaryOperator::Quotient
        | BinaryOperator::Remainder
        | BinaryOperator::Power => match operand {
            Type::Boolean(_) => true,
            _ => false,
        },
        BinaryOperator::LessThan
        | BinaryOperator::LessThanOrEqual
        | BinaryOperator::GreaterThan
        | BinaryOperator::GreaterThanOrEqual => match operand {
            Type::Matrix(_) => true,
            Type::Boolean(_) => true,
            _ => false,
        },
        BinaryOperator::And | BinaryOperator::Or => match operand {
            Type::Boolean(_) => false,
            _ => true,
        },
        BinaryOperator::Equal | BinaryOperator::NotEqual => false,
    }
}

/// Whether the operator cannot combine operands of these two types.
fn are_incompatible_operands(operator: BinaryOperator, left: &Type, right: &Type) -> (incompatible:
    bool)
    ensures
        incompatible == incompatible_operands(operator, left@, right@),
{
    match operator {
        BinaryOperator::Sum | BinaryOperator::Difference => match (left, right) {
            (Type::Number(_, _), Type::Matrix(_)) => true,
            (Type::Matrix(_), Type::Number(_, _)) => true,
            _ => false,
        },
        BinaryOperator::Equal | BinaryOperator::NotEqual => match (left, right) {
            (Type::Number(_, _), Type::Matrix(_)) => true,
            (Type::Matrix(_), Type::Number(_, _)) => true,
            (Type::Number(_, _), Type::Boolean(_)) => true,
            (Type::Matrix(_), Type::Boolean(_)) => true,
            (Type::Boolean(_), Type::Number(_, _)) => true,
            (Type::Boolean(_), Type::Matrix(_)) => true,
            _ => false,
        },
        _ => false,
    }
}

impl Expression {
    /// The operator over two numbers. `left` and `right` are the operands as
    /// they were, `a` and `b` the numbers that they stepped to, and `deferred`
    /// the operator over the stepped operands.
    fn evaluate_numbers(
        &self,
        operator: BinaryOperator,
        left: &Expression,
        right: &Expression,
        a: Complex,
        b: Complex,
        representation: RationalRepresentation,
        deferred: Expression,
    ) -> (result: Result<Expression, Error>)
        ensures
            outcome(result) == apply_to_numbers(
                operator,
                self@,
                left@,
                right@,
                a@,
                b@,
                representation,
                deferred@,
            ),
    {
        proof {
            use_type_invariant(&a.re);
            use_type_invariant(&a.im);
            use_type_invariant(&b.re);
            use_type_invariant(&b.im);
        }
        match operator {
            BinaryOperator::Sum => Ok(Expression::Complex(complex_add(&a, &b), representation)),
            BinaryOperator::Difference => Ok(
                Expression::Complex(complex_sub(&a, &b), representation),
            ),
            BinaryOperator::Product => Ok(Expression::Complex(complex_mul(&a, &b), representation)),
            BinaryOperator::Quotient => {
                if b.is_zero() {
                    Err(
                        Error::DivisionByZero {
                            expression: self.duplicate(),
                            dividend: left.duplicate(),
                            divisor: right.duplicate(),
                        },
                    )
                } else {
                    Ok(Expression::Complex(complex_div(&a, &b), representation))
                }
            },
            BinaryOperator::Remainder => {
                if b.is_zero() {
                    Err(
                        Error::DivisionByZero {
                            expression: self.duplicate(),
                            dividend: left.duplicate(),
                            divisor: right.duplicate(),
                        },
                    )
                } else {
                    Ok(Expression::Complex(complex_rem(&a, &b), representation))
                }
            },
            BinaryOperator::Power => {
                if a.is_zero() && b.is_zero() {
                    Err(
                        Error::ZeroToThePowerOfZero {
                            expression: self.duplicate(),
                            base: left.duplicate(),
                            exponent: right.duplicate(),
                        },
                    )
                } else if b.is_real() && b.re.is_integer() {
                    match b.re.numer().to_i32() {
                        Some(exponent) => {
                            if exponent < 0 && a.is_zero() {
                                Ok(deferred)
                            } else {
                                Ok(
                                    Expression::Complex(
                                        complex_powi(&a, exponent),
                                        representation,
                                    ),
                                )
                            }
                        },
                        None => Ok(deferred),
                    }
                } else {
                    Ok(deferred)
                }
            },
            BinaryOperator::Equal => Ok(Expression::Boolean(a == b)),
            BinaryOperator::NotEqual => Ok(Expression::Boolean(!(a == b))),
            BinaryOperator::LessThan
            | BinaryOperator::LessThanOrEqual
            | BinaryOperator::GreaterThan
            | BinaryOperator::GreaterThanOrEqual => {
                if !a.is_real() {
                    Err(
                        Error::InvalidOperand {
                            expression: self.duplicate(),
                            operand: left.duplicate(),
                        },
                    )
                } else if !b.is_real() {
                    Err(
                        Error::InvalidOperand {
                            expression: self.duplicate(),
                            operand: right.duplicate(),
                        },
                    )
                } else {
                    Ok(
                        Expression::Boolean(
                            match operator {
                                BinaryOperator::LessThan => a.re.less_than(&b.re),
                                BinaryOperator::LessThanOrEqual => !b.re.less_than(&a.re),
                                BinaryOperator::GreaterThan => b.re.less_than(&a.re),
                                _ => !a.re.less_than(&b.re),
                            },
                        ),
                    )
                }
            },
            BinaryOperator::And | BinaryOperator::Or => Ok(deferred),
        }
    }

    /// Returns the result of performing a single evaluation step on the
    /// unary operator expression `self`, or an error if the expression cannot
    /// be evaluated; nothing where the lookups nest deeper than `limit`.
    fn evaluate_step_unary(
        &self,
        context: &Context,
        limit: Option<usize>,
        Ghost(fuel): Ghost<nat>,
    ) -> (result: Option<Result<Expression, Error>>)
        requires
            self is Unary,
            limit matches Some(depth) ==> depth == fuel,
            limit is None ==> step_within(self@, context@, fuel) is Some,
        ensures
            outcome_within(result) == step_within(self@, context@, fuel),
        decreases fuel, self, 0nat,
    {
        match self {
            Expression::Unary(operator, a) => {
                let stepped = match a.evaluate_step(context, limit, Ghost(fuel)) {
                    Some(Ok(stepped)) => stepped,
                    Some(Err(error)) => {
                        return Some(Err(error));
                    },
                    None => {
                        return None;
                    },
                };
                let result = match operator {
                    UnaryOperator::Negation => match stepped.typ() {
                        Type::Boolean(_) => Err(
                            Error::InvalidOperand {
                                expression: self.duplicate(),
                                operand: a.duplicate(),
                            },
                        ),
                        Type::Number(z, representation) => {
                            proof {
                                use_type_invariant(&z.re);
                                use_type_invariant(&z.im);
                            }
                            Ok(Expression::Complex(complex_neg(&z), representation))
                        },
                        Type::Matrix(m) => {
                            Ok(Expression::Matrix(m.negation()))
                        },
                        Type::Arithmetic => Ok(Expression::Unary(*operator, Box::new(stepped))),
                    },
                    UnaryOperator::Not => match stepped.typ() {
                        Type::Boolean(Some(b)) => Ok(Expression::Boolean(!b)),
                        Type::Boolean(None) => Ok(Expression::Unary(*operator, Box::new(stepped))),
                        _ => Err(
                            Error::InvalidOperand {
                                expression: self.duplicate(),
                                operand: a.duplicate(),
                            },
                        ),
                    },
                };
                assert(outcome(result) == apply_unary(*operator, self@, a@, stepped@));
                Some(result)
            },
            _ => unreached(),
        }
    }

    /// Returns the result of performing a single evaluation step on the
    /// binary operator expression `self`, or an error if the expression
    /// cannot be evaluated; nothing where the lookups nest deeper than
    /// `limit`.
    fn evaluate_step_binary(
        &self,
        context: &Context,
        limit: Option<usize>,
        Ghost(fuel): Ghost<nat>,
    ) -> (result: Option<Result<Expression, Error>>)
        requires
            self is Binary,
            limit matches Some(depth) ==> depth == fuel,
            limit is None ==> step_within(self@, context@, fuel) is Some,
        ensures
            outcome_within(result) == step_within(self@, context@, fuel),
        decreases fuel, self, 0nat,
    {
        match self {
            Expression::Binary(operator, a, b) => {
                let left = match a.evaluate_step(context, limit, Ghost(fuel)) {
                    Some(Ok(stepped)) => stepped,
                    Some(Err(error)) => {
                        return Some(Err(error));
                    },
                    None => {
                        return None;
                    },
                };
                let right = match b.evaluate_step(context, limit, Ghost(fuel)) {
                    Some(Ok(stepped)) => stepped,
                    Some(Err(error)) => {
                        return Some(Err(error));
                    },
                    None => {
                        return None;
                    },
                };
                let left_type = left.typ();
                let right_type = right.typ();
                let result = if is_invalid_operand(*operator, &left_type) {
                    Err(
                        Error::InvalidOperand {
                            expression: self.duplicate(),
                            operand: a.duplicate(),
                        },
                    )
                } else if is_invalid_operand(*operator, &right_type) {
                    Err(
                        Error::InvalidOperand {
                            expression: self.duplicate(),
                            operand: b.duplicate(),
                        },
                    )
                } else if are_incompatible_operands(*operator, &left_type, &right_type) {
                    Err(
                        Error::IncompatibleOperands {
                            expression: self.duplicate(),
                            operand_1: a.duplicate(),
                            operand_2: b.duplicate(),
                        },
                    )
                } else {
                    let deferred = Expression::Binary(*operator, Box::new(left), Box::new(right));
                    match (left_type, right_type) {
                        (
                            Type::Number(x, x_representation),
                            Type::Number(y, y_representation),
                        ) => self.evaluate_numbers(
                            *operator,
                            a,
                            b,
                            x,
                            y,
                            x_representation.merge(y_representation),
                            deferred,
                        ),
                        (Type::Boolean(Some(p)), Type::Boolean(Some(q))) => Ok(
                            match operator {
                                BinaryOperator::Equal => Expression::Boolean(p == q),
                                BinaryOperator::NotEqual => Expression::Boolean(p != q),
                                BinaryOperator::And => Expression::Boolean(p && q),
                                BinaryOperator::Or => Expression::Boolean(p || q),
                                _ => deferred,
                            },
                        ),
                        _ => Ok(deferred),
                    }
                };
                assert(outcome(result) == apply_binary(*operator, self@, a@, b@, left@, right@));
                Some(result)
            },
            _ => unreached(),
        }
    }

    /// Returns the result of performing a single evaluation step on the
    /// expression, or an error if the expression cannot be evaluated. The
    /// `context` gives the values of variables by their identifiers.
    ///
    /// With a `limit`, the step gives nothing where variables are looked up
    /// more than `limit` deep, one inside the value of another. Without one,
    /// the caller has shown that the lookups end, within `fuel`.
    fn evaluate_step(
        &self,
        context: &Context,
        limit: Option<usize>,
        Ghost(fuel): Ghost<nat>,
    ) -> (result: Option<Result<Expression, Error>>)
        requires
            limit matches Some(depth) ==> depth == fuel,
            limit is None ==> step_within(self@, context@, fuel) is Some,
        ensures
            outcome_within(result) == step_within(self@, context@, fuel),
        decreases fuel, self, 1nat,
    {
        match self {
            Expression::Variable(name) => match context.get(name.as_str()) {
                Some(value) => match limit {
                    Some(depth) => {
                        if depth == 0 {
                            None
                        } else {
                            value.evaluate_step(
                                context,
                                Some(depth - 1),
                                Ghost((fuel - 1) as nat),
                            )
                        }
                    },
                    None => value.evaluate_step(context, None, Ghost((fuel - 1) as nat)),
                },
                None => Some(Ok(self.duplicate())),
            },
            Expression::Rational(q, _) => {
                if q.is_integer() {
                    Some(Ok(Expression::Integer(q.numer().clone())))
                } else {
                    Some(Ok(self.duplicate()))
                }
            },
            Expression::Complex(z, representation) => {
                if z.is_real() {
                    Some(Ok(Expression::Rational(z.re.clone(), *representation)))
                } else {
                    Some(Ok(self.duplicate()))
                }
            },
            Expression::Unary(_, _) => self.evaluate_step_unary(context, limit, Ghost(fuel)),
            Expression::Binary(_, _, _) => self.evaluate_step_binary(context, limit, Ghost(fuel)),
            _ => Some(Ok(self.duplicate())),
        }
    }

    /// Steps until a step fails or leaves the expression as it is. With a
    /// `limit`, nothing comes back where the first step would look variables
    /// up deeper than that.
    fn evaluate_to_normal_form(
        &self,
        context: &Context,
        limit: Option<usize>,
        Ghost(fuel): Ghost<nat>,
    ) -> (result: Option<Result<Expression, Error>>)
        requires
            limit matches Some(depth) ==> depth == fuel,
            limit is None ==> step_within(self@, context@, fuel) is Some,
        ensures
            result is Some <==> step_within(self@, context@, fuel) is Some,
            result matches Some(found) ==> outcome(found) == normal_form(self@, context@),
            result matches Some(Ok(normal)) ==> normal@.demoted(),
    {
        let mut old_expression = self.duplicate();
        proof {
            if step_within(self@, context@, fuel) is Some {
                law_step_is_independent_of_fuel(self@, context@, fuel);
            }
        }
        loop
            invariant
                limit matches Some(depth) ==> depth == fuel,
                limit is None ==> step_within(old_expression@, context@, fuel) is Some,
                old_expression@ == self@ || (old_expression@.settled(context@) && step_within(
                    self@,
                    context@,
                    fuel,
                ) is Some),
                step_within(self@, context@, fuel) is Some ==> resolvable(self@, context@)
                    && resolvable(old_expression@, context@) && normal_form(
                    old_expression@,
                    context@,
                ) == normal_form(self@, context@),
            decreases stage(old_expression@, context@), old_expression@.weight(),
        {
            proof {
                if old_expression@.settled(context@) {
                    lemma_settled_resolves(old_expression@, context@, fuel);
                }
                if step_within(old_expression@, context@, fuel) is Some {
                    law_step_is_independent_of_fuel(old_expression@, context@, fuel);
                }
            }
            let new_expression = match old_expression.evaluate_step(context, limit, Ghost(fuel)) {
                Some(Ok(stepped)) => stepped,
                Some(Err(error)) => {
                    return Some(Err(error));
                },
                None => {
                    return None;
                },
            };
            proof {
                lemma_step_settles(old_expression@, context@, fuel);
                lemma_settled_resolves(new_expression@, context@, fuel);
                if old_expression@.settled(context@) {
                    lemma_step_progress(old_expression@, context@, fuel);
                }
            }
            if new_expression == old_expression {
                proof {
                    lemma_fixed_point_demoted(new_expression@, context@, fuel);
                }
                return Some(Ok(new_expression));
            }
            old_expression = new_expression;
        }
    }

    /// Returns the result of evaluating the expression, or an error if the
    /// expression cannot be evaluated. The `context` gives the values of
    /// variables by their identifiers; `i` is the imaginary unit unless the
    /// context binds it.
    ///
    /// Steps are taken until one fails or leaves the expression as it is.
    /// The bindings must lead somewhere: no variable that a step looks up may
    /// have a value that asks, directly or through other variables, for the
    /// variable itself. `try_evaluate` finds out whether they do.
    pub fn evaluate(&self, context: Context) -> (result: Result<Expression, Error>)
        requires
            resolvable(self@, with_built_in(context@)),
        ensures
            outcome(result) == normal_form(self@, with_built_in(context@)),
            result matches Ok(normal) ==> normal@.demoted(),
    {
        let ghost fuel = enough_fuel(self@, with_built_in(context@));
        let default_context = default_context(context);
        match self.evaluate_to_normal_form(&default_context, None, Ghost(fuel)) {
            Some(result) => result,
            None => unreached(),
        }
    }

    /// Evaluates the expression as `evaluate` does where the bindings lead
    /// somewhere, and returns nothing where they do not.
    pub fn try_evaluate(&self, context: Context) -> (result: Option<Result<Expression, Error>>)
        ensures
            result is Some <==> resolvable(self@, with_built_in(context@)),
            result matches Some(found) ==> outcome(found) == normal_form(
                self@,
                with_built_in(context@),
            ),
            result matches Some(Ok(normal)) ==> normal@.demoted(),
    {
        let default_context = default_context(context);
        let depth = default_context.len();
        proof {
            if resolvable(self@, default_context@) {
                lemma_lookups_nest_no_deeper_than_bindings(
                    self@,
                    default_context@,
                    depth as nat,
                );
            }
        }
        self.evaluate_to_normal_form(&default_context, Some(depth), Ghost(depth as nat))
    }
}

/// The context that binds `i` to the imaginary unit and then everything as
/// `context` binds it.
fn default_context(context: Context) -> (all: Context)
    ensures
        all@ == with_built_in(context@),
{
    let mut default_context = Context::new();
    default_context.insert(
        "i".to_owned(),
        Expression::Complex(Complex::i(), RationalRepresentation::Fraction),
    );
    default_context.extend(context);
    default_context
}

} // verus!
