//! What holds of evaluation in general, proved from the definitions of the
//! step and of the normal form.

use vstd::prelude::*;
use crate::convergence::{
    lemma_fixed_point_demoted, lemma_more_fuel, lemma_normal_form_is_fixed, normal_form,
};
use crate::expression::{BinaryOperator, Expr, RationalRepresentation};
use crate::semantics::{
    apply_binary, enough_fuel, invalid_operand, resolvable, step, step_within, Bindings,
    ErrorValue, Tag,
};

verus! {

/// A step does not depend on the fuel: whatever fuel lets it come to an end
/// gives the step.
pub proof fn law_step_is_independent_of_fuel(expression: Expr, context: Bindings, fuel: nat)
    requires
        step_within(expression, context, fuel) is Some,
    ensures
        resolvable(expression, context),
        step(expression, context) == step_within(expression, context, fuel).unwrap(),
{
    let chosen = enough_fuel(expression, context);
    if chosen <= fuel {
        lemma_more_fuel(expression, context, chosen, fuel);
    } else {
        lemma_more_fuel(expression, context, fuel, chosen);
    }
}

/// Evaluating a normal form gives it back: evaluation is idempotent.
pub proof fn law_evaluation_is_idempotent(expression: Expr, context: Bindings, normal: Expr)
    requires
        resolvable(expression, context),
        normal_form(expression, context) == Ok::<Expr, ErrorValue>(normal),
    ensures
        resolvable(normal, context),
        normal_form(normal, context) == Ok::<Expr, ErrorValue>(normal),
{
    lemma_normal_form_is_fixed(expression, context);
}

/// A normal form holds no complex number with a zero imaginary part and no
/// rational with the denominator one, at its root or under its operators.
pub proof fn law_normal_form_is_demoted(expression: Expr, context: Bindings, normal: Expr)
    requires
        resolvable(expression, context),
        normal_form(expression, context) == Ok::<Expr, ErrorValue>(normal),
    ensures
        normal.demoted(),
{
    lemma_normal_form_is_fixed(expression, context);
    lemma_fixed_point_demoted(normal, context, enough_fuel(normal, context));
}

/// The first step that fails ends the evaluation with its error.
pub proof fn law_error_ends_evaluation(expression: Expr, context: Bindings, error: ErrorValue)
    requires
        resolvable(expression, context),
        step(expression, context) == Err::<Expr, ErrorValue>(error),
    ensures
        normal_form(expression, context) == Err::<Expr, ErrorValue>(error),
{
}

/// The error of an operand is the error of the operator over it, and the
/// left operand's error comes before the right one's.
pub proof fn law_operand_error_is_passed_on(
    operator: BinaryOperator,
    left: Expr,
    right: Expr,
    context: Bindings,
    fuel: nat,
    error: ErrorValue,
)
    requires
        step_within(left, context, fuel) == Some(Err::<Expr, ErrorValue>(error)) || (step_within(
            left,
            context,
            fuel,
        ) matches Some(Ok(_)) && step_within(right, context, fuel) == Some(
            Err::<Expr, ErrorValue>(error),
        )),
    ensures
        step_within(Expr::Binary(operator, Box::new(left), Box::new(right)), context, fuel) == Some(
            Err::<Expr, ErrorValue>(error),
        ),
{
}

/// Dividing by a number that is zero, or taking the remainder by it, fails
/// with `DivisionByZero`, which names the whole expression and the two
/// operands as they stood before their steps. `dividend` and `divisor` are
/// the numbers that the operands step to.
pub proof fn law_division_by_zero(
    operator: BinaryOperator,
    left: Expr,
    right: Expr,
    context: Bindings,
    fuel: nat,
    dividend: Expr,
    divisor: Expr,
)
    requires
        operator is Quotient || operator is Remainder,
        step_within(left, context, fuel) == Some(Ok::<Expr, ErrorValue>(dividend)),
        step_within(right, context, fuel) == Some(Ok::<Expr, ErrorValue>(divisor)),
        dividend.typ() is Number,
        divisor.typ() matches Tag::Number(z, _) && z.is_zero(),
    ensures
        step_within(Expr::Binary(operator, Box::new(left), Box::new(right)), context, fuel) == Some(
            Err::<Expr, ErrorValue>(
                ErrorValue::DivisionByZero {
                    expression: Expr::Binary(operator, Box::new(left), Box::new(right)),
                    dividend: left,
                    divisor: right,
                },
            ),
        ),
{
}

/// Comparing two numbers by order fails with `InvalidOperand` where one of
/// them has an imaginary part; the error names the left operand if it has
/// one, and the right operand otherwise. `a` and `b` are the numbers that
/// the operands step to.
pub proof fn law_complex_numbers_are_not_ordered(
    operator: BinaryOperator,
    left: Expr,
    right: Expr,
    context: Bindings,
    fuel: nat,
    a: Expr,
    b: Expr,
)
    requires
        operator.is_ordering(),
        step_within(left, context, fuel) == Some(Ok::<Expr, ErrorValue>(a)),
        step_within(right, context, fuel) == Some(Ok::<Expr, ErrorValue>(b)),
        a.typ() is Number,
        b.typ() is Number,
        !a.typ()->Number_0.is_real() || !b.typ()->Number_0.is_real(),
    ensures
        step_within(Expr::Binary(operator, Box::new(left), Box::new(right)), context, fuel) == Some(
            Err::<Expr, ErrorValue>(
                ErrorValue::InvalidOperand {
                    expression: Expr::Binary(operator, Box::new(left), Box::new(right)),
                    operand: if a.typ()->Number_0.is_real() {
                        right
                    } else {
                        left
                    },
                },
            ),
        ),
{
}

/// Where the operator takes neither operand, the error names the left one.
pub proof fn law_left_operand_is_named_first(
    operator: BinaryOperator,
    expression: Expr,
    left: Expr,
    right: Expr,
    stepped_left: Expr,
    stepped_right: Expr,
)
    requires
        invalid_operand(operator, stepped_left.typ()),
    ensures
        apply_binary(operator, expression, left, right, stepped_left, stepped_right) == Err::<
            Expr,
            ErrorValue,
        >(ErrorValue::InvalidOperand { expression, operand: left }),
{
}

/// Two numbers written alike keep their way of being written under an
/// operator, and two written differently give a decimal.
pub proof fn law_representations_merge(a: RationalRepresentation, b: RationalRepresentation)
    ensures
        a.spec_merge(a) == a,
        a != b ==> a.spec_merge(b) == RationalRepresentation::Decimal,
        a.spec_merge(b) == b.spec_merge(a),
{
}

} // verus!
