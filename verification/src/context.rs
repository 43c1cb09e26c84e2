//! The values of variables.

use vstd::prelude::*;
use vstd::hash_map::StringHashMap;
use crate::expression::{Expr, Expression};
use crate::semantics::Bindings;

verus! {

/// The values of variables, by their identifiers.
pub struct Context {
    bindings: StringHashMap<Expression>,
}

impl View for Context {
    type V = Bindings;

    closed spec fn view(&self) -> Bindings {
        Map::new(
            |name: Seq<char>| self.bindings@.contains_key(name),
            |name: Seq<char>| self.bindings@[name]@,
        )
    }
}

impl Context {
    /// Finitely many variables are bound.
    #[verifier::type_invariant]
    spec fn finite(&self) -> bool {
        self.bindings@.dom().finite()
    }

    /// The context that binds no variable.
    pub fn new() -> (context: Context)
        ensures
            context@ == Map::<Seq<char>, Expr>::empty(),
    {
        let context = Context { bindings: StringHashMap::new() };
        assert(context@ =~= Map::<Seq<char>, Expr>::empty());
        context
    }

    /// Binds `name` to `value`, in place of what it was bound to.
    pub fn insert(&mut self, name: String, value: Expression)
        ensures
            final(self)@ == old(self)@.insert(name@, value@),
    {
        proof {
            use_type_invariant(&*self);
        }
        let mut taken = Context::new();
        core::mem::swap(self, &mut taken);
        let mut bindings = taken.bindings;
        bindings.insert(name, value);
        let mut updated = Context { bindings };
        assert(updated@ =~= old(self)@.insert(name@, value@));
        core::mem::swap(self, &mut updated);
    }

    /// The number of variables that are bound.
    pub fn len(&self) -> (count: usize)
        ensures
            count == self@.dom().len(),
            self@.dom().finite(),
    {
        proof {
            use_type_invariant(self);
        }
        assert(self@.dom() =~= self.bindings@.dom());
        self.bindings.len()
    }

    /// The value that `name` is bound to.
    pub fn get(&self, name: &str) -> (value: Option<&Expression>)
        ensures
            value is Some <==> self@.contains_key(name@),
            value matches Some(bound) ==> bound@ == self@[name@],
    {
        self.bindings.get(name)
    }

    /// Adds the bindings of `other`, which replace those of the same name.
    pub fn extend(&mut self, other: Context)
        ensures
            final(self)@ == old(self)@.union_prefer_right(other@),
    {
        proof {
            use_type_invariant(&*self);
            use_type_invariant(&other);
        }
        let mut taken = Context::new();
        core::mem::swap(self, &mut taken);
        let mut bindings = taken.bindings;
        bindings.union_prefer_right(other.bindings);
        assert(bindings@.dom() =~= old(self).bindings@.dom().union(other.bindings@.dom()));
        let mut updated = Context { bindings };
        assert(updated@ =~= old(self)@.union_prefer_right(other@));
        core::mem::swap(self, &mut updated);
    }
}

} // verus!
