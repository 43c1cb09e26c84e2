//! Why repeated steps come to an end, the normal form that they reach, and
//! what holds of it.

use vstd::prelude::*;
use crate::expression::Expr;
use crate::semantics::{
    enough_fuel, resolvable, step, step_within, Bindings, ErrorValue, Outcome,
};

verus! {

/// A step that comes to an end within some fuel gives the same with more.
pub proof fn lemma_more_fuel(expression: Expr, context: Bindings, fuel: nat, more: nat)
    requires
        step_within(expression, context, fuel) is Some,
        fuel <= more,
    ensures
        step_within(expression, context, more) == step_within(expression, context, fuel),
    decreases fuel, expression,
{
    match expression {
        Expr::Variable(name) => {
            if context.contains_key(name) {
                lemma_more_fuel(context[name], context, (fuel - 1) as nat, (more - 1) as nat);
            }
        },
        Expr::Unary(_, a) => {
            lemma_more_fuel(*a, context, fuel, more);
        },
        Expr::Binary(_, a, b) => {
            lemma_more_fuel(*a, context, fuel, more);
            if step_within(*a, context, fuel) matches Some(Ok(_)) {
                lemma_more_fuel(*b, context, fuel, more);
            }
        },
        _ => {},
    }
}

/// What a step gives holds no bound variable where the next step would look
/// one up.
pub proof fn lemma_step_settles(expression: Expr, context: Bindings, fuel: nat)
    ensures
        step_within(expression, context, fuel) matches Some(Ok(next)) ==> next.settled(context),
    decreases fuel, expression,
{
    match expression {
        Expr::Variable(name) => {
            if context.contains_key(name) && fuel > 0 {
                lemma_step_settles(context[name], context, (fuel - 1) as nat);
            }
        },
        Expr::Unary(_, a) => {
            lemma_step_settles(*a, context, fuel);
        },
        Expr::Binary(_, a, b) => {
            lemma_step_settles(*a, context, fuel);
            lemma_step_settles(*b, context, fuel);
        },
        _ => {},
    }
}

/// A step on a settled expression needs no lookup.
pub proof fn lemma_settled_resolves(expression: Expr, context: Bindings, fuel: nat)
    requires
        expression.settled(context),
    ensures
        step_within(expression, context, fuel) is Some,
        resolvable(expression, context),
    decreases expression,
{
    match expression {
        Expr::Unary(_, a) => {
            lemma_settled_resolves(*a, context, fuel);
        },
        Expr::Binary(_, a, b) => {
            lemma_settled_resolves(*a, context, fuel);
            lemma_settled_resolves(*b, context, fuel);
        },
        _ => {},
    }
}

/// A step on a settled expression leaves it as it is or makes it lighter.
pub proof fn lemma_step_progress(expression: Expr, context: Bindings, fuel: nat)
    requires
        expression.settled(context),
    ensures
        step_within(expression, context, fuel) matches Some(Ok(next)) ==> next == expression
            || next.weight() < expression.weight(),
    decreases expression,
{
    match expression {
        Expr::Unary(_, a) => {
            lemma_step_progress(*a, context, fuel);
        },
        Expr::Binary(_, a, b) => {
            lemma_step_progress(*a, context, fuel);
            lemma_step_progress(*b, context, fuel);
        },
        _ => {},
    }
}

/// An expression that a step leaves as it is holds no number that could be
/// demoted.
pub proof fn lemma_fixed_point_demoted(expression: Expr, context: Bindings, fuel: nat)
    requires
        step_within(expression, context, fuel) == Some(Ok::<Expr, ErrorValue>(expression)),
    ensures
        expression.demoted(),
    decreases expression,
{
    match expression {
        Expr::Unary(_, a) => {
            lemma_fixed_point_demoted(*a, context, fuel);
        },
        Expr::Binary(_, a, b) => {
            lemma_fixed_point_demoted(*a, context, fuel);
            lemma_fixed_point_demoted(*b, context, fuel);
        },
        _ => {},
    }
}

/// Where an expression stands on the way to its normal form: not settled
/// yet, or settled.
pub open spec fn stage(expression: Expr, context: Bindings) -> nat {
    if expression.settled(context) {
        0
    } else {
        1
    }
}

/// The result of evaluating a resolvable expression: steps are taken until
/// one fails, which gives its error, or leaves the expression as it is,
/// which gives that expression.
pub open spec fn normal_form(expression: Expr, context: Bindings) -> Outcome
    decreases stage(expression, context), expression.weight(),
    when resolvable(expression, context)
    via normal_form_decreases
{
    match step(expression, context) {
        Err(error) => Err(error),
        Ok(next) => if next == expression {
            Ok(next)
        } else {
            normal_form(next, context)
        },
    }
}

#[via_fn]
proof fn normal_form_decreases(expression: Expr, context: Bindings) {
    let fuel = enough_fuel(expression, context);
    lemma_step_settles(expression, context, fuel);
    if expression.settled(context) {
        lemma_step_progress(expression, context, fuel);
    }
}

/// The normal form is settled, a step leaves it as it is, and it is
/// resolvable in its turn.
pub proof fn lemma_normal_form_is_fixed(expression: Expr, context: Bindings)
    requires
        resolvable(expression, context),
    ensures
        normal_form(expression, context) matches Ok(normal) ==> {
            &&& normal.settled(context)
            &&& resolvable(normal, context)
            &&& step(normal, context) == Ok::<Expr, ErrorValue>(normal)
        },
    decreases stage(expression, context), expression.weight(),
{
    let fuel = enough_fuel(expression, context);
    lemma_step_settles(expression, context, fuel);
    if expression.settled(context) {
        lemma_step_progress(expression, context, fuel);
    }
    match step(expression, context) {
        Ok(next) => {
            if next != expression {
                lemma_settled_resolves(next, context, 0);
                lemma_normal_form_is_fixed(next, context);
            }
        },
        Err(_) => {},
    }
}

} // verus!
