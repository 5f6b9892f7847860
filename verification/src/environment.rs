//! The environment of the type checker: scopes within scopes, each from the
//! number of a name to the type of the name.

use crate::ast::{Shape, Type};
use crate::interner::Symbol;
use std::collections::HashMap;
use vstd::prelude::*;

verus! {

broadcast use vstd::std_specs::hash::group_hash_axioms;

/// The bindings of one scope as plain values.
pub open spec fn bindings(scope: Map<usize, Type>) -> Map<usize, Shape> {
    Map::new(|name: usize| scope.contains_key(name), |name: usize| scope[name]@)
}

/// The type of a name in scopes, the innermost last: the type that the
/// innermost scope that binds the name gives it.
pub open spec fn lookup(scopes: Seq<Map<usize, Shape>>, name: usize) -> Option<Shape>
    decreases scopes.len(),
{
    if scopes.len() == 0 {
        None
    } else if scopes.last().contains_key(name) {
        Some(scopes.last()[name])
    } else {
        lookup(scopes.drop_last(), name)
    }
}

/// The scopes after a name is bound in the innermost one.
pub open spec fn define(scopes: Seq<Map<usize, Shape>>, name: usize, shape: Shape) -> Seq<
    Map<usize, Shape>,
> {
    if scopes.len() == 0 {
        scopes
    } else {
        scopes.update(scopes.len() - 1, scopes.last().insert(name, shape))
    }
}

/// The scopes with a new, empty scope inside the innermost one.
pub open spec fn extend(scopes: Seq<Map<usize, Shape>>) -> Seq<Map<usize, Shape>> {
    scopes.push(Map::empty())
}

/// A name that is bound is found with the type that it was bound to, and
/// every other name is found as before.
pub proof fn lemma_lookup_after_define(
    scopes: Seq<Map<usize, Shape>>,
    name: usize,
    shape: Shape,
    other: usize,
)
    requires
        scopes.len() > 0,
    ensures
        lookup(define(scopes, name, shape), name) == Some(shape),
        other != name ==> lookup(define(scopes, name, shape), other) == lookup(scopes, other),
{
    assert(define(scopes, name, shape).drop_last() =~= scopes.drop_last());
}

/// A new scope hides nothing, and what is bound in it is gone when it is
/// closed.
pub proof fn lemma_scope_opens_and_closes(
    scopes: Seq<Map<usize, Shape>>,
    name: usize,
    shape: Shape,
    other: usize,
)
    ensures
        lookup(extend(scopes), other) == lookup(scopes, other),
        define(extend(scopes), name, shape).drop_last() == scopes,
        extend(scopes).drop_last() == scopes,
{
    assert(extend(scopes).drop_last() =~= scopes);
    assert(define(extend(scopes), name, shape).drop_last() =~= scopes);
}

/// Scopes within scopes. A name is bound in the innermost scope and looked
/// up from the innermost scope outwards.
pub struct Environment {
    scopes: Vec<HashMap<usize, Type>>,
}

impl View for Environment {
    type V = Seq<Map<usize, Shape>>;

    closed spec fn view(&self) -> Seq<Map<usize, Shape>> {
        Seq::new(self.scopes@.len(), |i: int| bindings(self.scopes@[i]@))
    }
}

impl Environment {
    /// The environment of one scope with the given bindings, each from the
    /// number of a name to its type.
    pub fn from_hashmap(map: HashMap<usize, Type>) -> (env: Self)
        ensures
            env@ == seq![bindings(map@)],
    {
        let mut scopes: Vec<HashMap<usize, Type>> = Vec::new();
        scopes.push(map);
        let env = Environment { scopes };
        assert(env@ =~= seq![bindings(map@)]);
        env
    }

    /// The number of scopes.
    pub fn depth(&self) -> (n: usize)
        ensures
            n == self@.len(),
    {
        self.scopes.len()
    }

    /// Opens a new scope inside the innermost one.
    pub fn extend(&mut self)
        ensures
            final(self)@ == extend(old(self)@),
    {
        let scope: HashMap<usize, Type> = HashMap::new();
        assert(bindings(scope@) =~= Map::<usize, Shape>::empty());
        self.scopes.push(scope);
        assert(self@ =~= extend(old(self)@));
    }

    /// Closes the innermost scope, with what is bound in it.
    pub fn leave(&mut self)
        requires
            old(self)@.len() > 0,
        ensures
            final(self)@ == old(self)@.drop_last(),
    {
        let _ = self.scopes.pop();
        assert(self@ =~= old(self)@.drop_last());
    }

    /// The type of a name: the one that the innermost scope that binds the
    /// name gives it, or `None` where no scope binds it.
    pub fn lookup_variable_type(&self, name: Symbol) -> (r: Option<Type>)
        ensures
            Type::shape_of(r) == lookup(self@, name.0),
    {
        let key = name.index();
        let mut i: usize = self.scopes.len();
        assert(self@.take(i as int) =~= self@);
        while i > 0
            invariant
                i <= self.scopes@.len(),
                key == name.0,
                lookup(self@, key) == lookup(self@.take(i as int), key),
            decreases i,
        {
            i -= 1;
            assert(self@.take(i + 1).last() == bindings(self.scopes@[i as int]@));
            assert(self@.take(i + 1).drop_last() =~= self@.take(i as int));
            match self.scopes[i].get(&key) {
                Some(ty) => {
                    return Some(ty.copy());
                },
                None => {},
            }
        }
        None
    }

    /// Binds a name in the innermost scope. A name that the scope binds
    /// already gets the new type.
    pub fn define_variable(&mut self, name: Symbol, ty: Type)
        requires
            old(self)@.len() > 0,
        ensures
            final(self)@ == define(old(self)@, name.0, ty@),
    {
        let mut top = match self.scopes.pop() {
            Some(top) => top,
            None => HashMap::new(),
        };
        let ghost before = top@;
        top.insert(name.index(), ty);
        assert(bindings(top@) =~= bindings(before).insert(name.0, ty@));
        self.scopes.push(top);
        assert(self@ =~= define(old(self)@, name.0, ty@));
    }
}

} // verus!
