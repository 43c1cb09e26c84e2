//! How deep lookups nest. A step that runs out of fuel has looked up a chain
//! of variables, one inside the value of another. Where the chain is longer
//! than there are bindings, a name stands in it twice, and then no fuel is
//! enough: the variable's value asks for the variable itself.

use vstd::prelude::*;
use vstd::set_lib::lemma_len_subset;
use crate::convergence::lemma_more_fuel;
use crate::expression::Expr;
use crate::semantics::{resolvable, step_within, Bindings};

verus! {

/// The variables that a step looks up one inside another on the way on
/// which it runs out of fuel.
pub open spec fn chain(expression: Expr, context: Bindings, fuel: nat) -> Seq<Seq<char>>
    decreases fuel, expression,
{
    match expression {
        Expr::Variable(name) => if !context.contains_key(name) {
            Seq::empty()
        } else if fuel == 0 {
            seq![name]
        } else {
            seq![name] + chain(context[name], context, (fuel - 1) as nat)
        },
        Expr::Unary(_, a) => chain(*a, context, fuel),
        Expr::Binary(_, a, b) => if step_within(*a, context, fuel) is None {
            chain(*a, context, fuel)
        } else {
            chain(*b, context, fuel)
        },
        _ => Seq::empty(),
    }
}

/// The chain of a step that runs out of fuel holds one bound variable more
/// than there was fuel.
pub proof fn lemma_chain_length(expression: Expr, context: Bindings, fuel: nat)
    requires
        step_within(expression, context, fuel) is None,
    ensures
        chain(expression, context, fuel).len() == fuel + 1,
        forall|k: int|
            0 <= k <= fuel ==> context.contains_key(
                #[trigger] chain(expression, context, fuel)[k],
            ),
    decreases fuel, expression,
{
    match expression {
        Expr::Variable(name) => {
            if fuel > 0 {
                lemma_chain_length(context[name], context, (fuel - 1) as nat);
                let rest = chain(context[name], context, (fuel - 1) as nat);
                let whole = chain(expression, context, fuel);
                assert forall|k: int| 0 <= k <= fuel implies context.contains_key(
                    #[trigger] whole[k],
                ) by {
                    if k > 0 {
                        assert(whole[k] == rest[k - 1]);
                    }
                }
            }
        },
        Expr::Unary(_, a) => {
            lemma_chain_length(*a, context, fuel);
        },
        Expr::Binary(_, a, b) => {
            if step_within(*a, context, fuel) is None {
                lemma_chain_length(*a, context, fuel);
            } else {
                lemma_chain_length(*b, context, fuel);
            }
        },
        _ => {},
    }
}

/// The step comes to each variable of the chain with the fuel that is left
/// there, runs out of fuel from there too, and the rest of the chain is the
/// chain from there.
pub proof fn lemma_chain_from(expression: Expr, context: Bindings, fuel: nat, k: nat)
    requires
        step_within(expression, context, fuel) is None,
        k <= fuel,
    ensures
        step_within(
            Expr::Variable(chain(expression, context, fuel)[k as int]),
            context,
            (fuel - k) as nat,
        ) is None,
        chain(
            Expr::Variable(chain(expression, context, fuel)[k as int]),
            context,
            (fuel - k) as nat,
        ) == chain(expression, context, fuel).skip(k as int),
    decreases fuel, expression,
{
    lemma_chain_length(expression, context, fuel);
    let whole = chain(expression, context, fuel);
    match expression {
        Expr::Variable(name) => {
            if k == 0 {
                assert(whole.skip(0) =~= whole);
            } else {
                let rest = chain(context[name], context, (fuel - 1) as nat);
                lemma_chain_length(context[name], context, (fuel - 1) as nat);
                lemma_chain_from(context[name], context, (fuel - 1) as nat, (k - 1) as nat);
                assert(whole[k as int] == rest[k - 1]);
                assert(whole.skip(k as int) =~= rest.skip(k - 1));
            }
        },
        Expr::Unary(_, a) => {
            lemma_chain_from(*a, context, fuel, k);
        },
        Expr::Binary(_, a, b) => {
            if step_within(*a, context, fuel) is None {
                lemma_chain_from(*a, context, fuel, k);
            } else {
                lemma_chain_from(*b, context, fuel, k);
            }
        },
        _ => {},
    }
}

/// A step with other fuel goes the same way as far as its fuel lasts: it
/// comes to nothing if it gets no further than the `k`-th variable of the
/// chain, or if the step on that variable comes to nothing with the fuel
/// that is left there.
pub proof fn lemma_same_way(expression: Expr, context: Bindings, fuel: nat, k: nat, other: nat)
    requires
        step_within(expression, context, fuel) is None,
        k <= fuel,
        other < k || step_within(
            Expr::Variable(chain(expression, context, fuel)[k as int]),
            context,
            (other - k) as nat,
        ) is None,
    ensures
        step_within(expression, context, other) is None,
    decreases fuel, expression,
{
    lemma_chain_length(expression, context, fuel);
    let whole = chain(expression, context, fuel);
    match expression {
        Expr::Variable(name) => {
            if k > 0 && other > 0 {
                let rest = chain(context[name], context, (fuel - 1) as nat);
                lemma_chain_length(context[name], context, (fuel - 1) as nat);
                assert(whole[k as int] == rest[k - 1]);
                lemma_same_way(
                    context[name],
                    context,
                    (fuel - 1) as nat,
                    (k - 1) as nat,
                    (other - 1) as nat,
                );
            }
        },
        Expr::Unary(_, a) => {
            lemma_same_way(*a, context, fuel, k, other);
        },
        Expr::Binary(_, a, b) => {
            if step_within(*a, context, fuel) is None {
                lemma_same_way(*a, context, fuel, k, other);
            } else {
                lemma_same_way(*b, context, fuel, k, other);
                if step_within(*a, context, other) is Some {
                    if other <= fuel {
                        lemma_more_fuel(*a, context, other, fuel);
                    } else {
                        lemma_more_fuel(*a, context, fuel, other);
                    }
                }
            }
        },
        _ => {},
    }
}

/// A variable that stands in its own chain is never looked up to the end.
pub proof fn lemma_variable_asks_for_itself(
    name: Seq<char>,
    context: Bindings,
    fuel: nat,
    period: nat,
    other: nat,
)
    requires
        step_within(Expr::Variable(name), context, fuel) is None,
        1 <= period <= fuel,
        chain(Expr::Variable(name), context, fuel)[period as int] == name,
    ensures
        step_within(Expr::Variable(name), context, other) is None,
    decreases other,
{
    if other >= period {
        lemma_variable_asks_for_itself(name, context, fuel, period, (other - period) as nat);
    }
    lemma_same_way(Expr::Variable(name), context, fuel, period, other);
}

/// A step whose chain holds a name twice comes to nothing whatever the
/// fuel.
pub proof fn lemma_name_twice_in_chain(
    expression: Expr,
    context: Bindings,
    fuel: nat,
    i: nat,
    j: nat,
    other: nat,
)
    requires
        step_within(expression, context, fuel) is None,
        i < j <= fuel,
        chain(expression, context, fuel)[i as int] == chain(expression, context, fuel)[j as int],
    ensures
        step_within(expression, context, other) is None,
{
    let whole = chain(expression, context, fuel);
    let name = whole[i as int];
    lemma_chain_length(expression, context, fuel);
    lemma_chain_from(expression, context, fuel, i);
    assert(whole.skip(i as int)[j - i] == whole[j as int]);
    if other >= i {
        lemma_variable_asks_for_itself(
            name,
            context,
            (fuel - i) as nat,
            (j - i) as nat,
            (other - i) as nat,
        );
    }
    lemma_same_way(expression, context, fuel, i, other);
}

/// Lookups that end nest no deeper than there are bindings.
pub proof fn lemma_lookups_nest_no_deeper_than_bindings(
    expression: Expr,
    context: Bindings,
    fuel: nat,
)
    requires
        context.dom().finite(),
        fuel >= context.dom().len(),
        resolvable(expression, context),
    ensures
        step_within(expression, context, fuel) is Some,
{
    if step_within(expression, context, fuel) is None {
        let whole = chain(expression, context, fuel);
        lemma_chain_length(expression, context, fuel);
        if whole.no_duplicates() {
            whole.unique_seq_to_set();
            assert(whole.to_set().subset_of(context.dom())) by {
                assert forall|name: Seq<char>| whole.to_set().contains(name) implies context.dom().contains(
                    name,
                ) by {
                    let k = choose|k: int| 0 <= k < whole.len() && whole[k] == name;
                    assert(context.contains_key(whole[k]));
                }
            }
            lemma_len_subset(whole.to_set(), context.dom());
            assert(false);
        }
        let (i, j) = choose|i: int, j: int|
            0 <= i < whole.len() && 0 <= j < whole.len() && i != j && whole[i] == whole[j];
        let enough = choose|enough: nat| (#[trigger] step_within(expression, context, enough)) is Some;
        if i < j {
            lemma_name_twice_in_chain(expression, context, fuel, i as nat, j as nat, enough);
        } else {
            lemma_name_twice_in_chain(expression, context, fuel, j as nat, i as nat, enough);
        }
    }
}

} // verus!
