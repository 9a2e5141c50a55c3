//! Chains of lexical scopes.

use vstd::prelude::*;
use vstd::hash_map::StringHashMap;
use crate::error::EvalError;
use crate::expression::Expression;

verus! {

/// A scope of variable bindings together with the scopes that enclose it.
///
/// The view of an environment is its chain of scopes, innermost first and
/// root last, each a map from a name to the expression bound to it.
#[verifier::reject_recursive_types(S)]
pub struct Environment<S> {
    hash_map: StringHashMap<Expression<S>>,
    parent: Option<Box<Environment<S>>>,
}

impl<S> View for Environment<S> {
    type V = Seq<Map<Seq<char>, Expression<S>>>;

    closed spec fn view(&self) -> Self::V {
        self.chain()
    }
}

impl<S> Environment<S> {
    spec fn chain(&self) -> Seq<Map<Seq<char>, Expression<S>>>
        decreases self,
    {
        match self.parent {
            None => seq![self.hash_map@],
            Some(parent) => seq![self.hash_map@] + parent.chain(),
        }
    }

    /// The binding of `name` in the first scope of `scopes` that has one.
    pub open spec fn resolve(scopes: Seq<Map<Seq<char>, Expression<S>>>, name: Seq<char>) -> Option<
        Expression<S>,
    >
        decreases scopes.len(),
    {
        if scopes.len() == 0 {
            None
        } else if scopes[0].contains_key(name) {
            Some(scopes[0][name])
        } else {
            Self::resolve(scopes.drop_first(), name)
        }
    }

    /// A name resolves to its binding in the nearest scope that binds it: the
    /// scopes before that one do not bind it. It resolves to nothing exactly
    /// where no scope of the chain binds it.
    pub proof fn lemma_resolve_is_nearest(scopes: Seq<Map<Seq<char>, Expression<S>>>, name: Seq<char>)
        ensures
            match Self::resolve(scopes, name) {
                Some(expression) => exists|nearest: int|
                    {
                        &&& 0 <= nearest < scopes.len()
                        &&& #[trigger] scopes[nearest].contains_key(name)
                        &&& scopes[nearest][name] == expression
                        &&& forall|inner: int|
                            0 <= inner < nearest ==> !#[trigger] scopes[inner].contains_key(name)
                    },
                None => forall|index: int|
                    0 <= index < scopes.len() ==> !#[trigger] scopes[index].contains_key(name),
            },
        decreases scopes.len(),
    {
        if scopes.len() == 0 {
        } else if scopes[0].contains_key(name) {
            assert(scopes[0].contains_key(name));
        } else {
            let rest = scopes.drop_first();
            Self::lemma_resolve_is_nearest(rest, name);
            match Self::resolve(rest, name) {
                Some(expression) => {
                    let nearest = choose|nearest: int|
                        {
                            &&& 0 <= nearest < rest.len()
                            &&& #[trigger] rest[nearest].contains_key(name)
                            &&& rest[nearest][name] == expression
                            &&& forall|inner: int|
                                0 <= inner < nearest ==> !#[trigger] rest[inner].contains_key(name)
                        };
                    assert(scopes[nearest + 1] == rest[nearest]);
                    assert forall|inner: int| 0 <= inner < nearest + 1 implies !#[trigger] scopes[inner].contains_key(
                        name,
                    ) by {
                        if inner > 0 {
                            assert(scopes[inner] == rest[inner - 1]);
                        }
                    }
                    assert(scopes[nearest + 1].contains_key(name));
                },
                None => {
                    assert forall|index: int| 0 <= index < scopes.len() implies !#[trigger] scopes[index].contains_key(
                        name,
                    ) by {
                        if index > 0 {
                            assert(scopes[index] == rest[index - 1]);
                        }
                    }
                },
            }
        }
    }

    /// Shadowing: a name bound in the innermost scope resolves to that
    /// binding, whatever the enclosing scopes hold for it.
    pub proof fn lemma_inner_binding_shadows(
        inner: Map<Seq<char>, Expression<S>>,
        outer: Seq<Map<Seq<char>, Expression<S>>>,
        name: Seq<char>,
    )
        requires
            inner.contains_key(name),
        ensures
            Self::resolve(seq![inner] + outer, name) == Some(inner[name]),
    {
    }

    /// Fallthrough: a name that the innermost scope does not bind resolves as
    /// it does in the enclosing chain.
    pub proof fn lemma_missing_name_falls_through(
        inner: Map<Seq<char>, Expression<S>>,
        outer: Seq<Map<Seq<char>, Expression<S>>>,
        name: Seq<char>,
    )
        requires
            !inner.contains_key(name),
        ensures
            Self::resolve(seq![inner] + outer, name) == Self::resolve(outer, name),
    {
        assert((seq![inner] + outer).drop_first() =~= outer);
    }

    /// After a binding is added to the innermost scope, its name resolves to
    /// the new expression and every other name resolves as before.
    pub proof fn lemma_insert_rebinds_one_name(
        scopes: Seq<Map<Seq<char>, Expression<S>>>,
        name: Seq<char>,
        expression: Expression<S>,
        other: Seq<char>,
    )
        requires
            scopes.len() >= 1,
        ensures
            Self::resolve(scopes.update(0, scopes[0].insert(name, expression)), name) == Some(
                expression,
            ),
            other != name ==> Self::resolve(
                scopes.update(0, scopes[0].insert(name, expression)),
                other,
            ) == Self::resolve(scopes, other),
    {
        let updated = scopes.update(0, scopes[0].insert(name, expression));
        assert(updated.drop_first() =~= scopes.drop_first());
    }

    /// Every environment has at least its own scope.
    pub proof fn lemma_has_scope(&self)
        ensures
            self@.len() >= 1,
        decreases self,
    {
    }

    /// A scope with no bindings and no enclosing scope.
    pub fn root() -> (environment: Self)
        ensures
            environment@ == seq![Map::<Seq<char>, Expression<S>>::empty()],
    {
        Environment { hash_map: StringHashMap::new(), parent: None }
    }

    /// A scope with no bindings of its own, enclosed by `parent`.
    pub fn new(parent: Environment<S>) -> (environment: Self)
        ensures
            environment@ == seq![Map::<Seq<char>, Expression<S>>::empty()] + parent@,
    {
        Environment { hash_map: StringHashMap::new(), parent: Some(Box::new(parent)) }
    }

    /// Binds `key` to `expression` in the innermost scope, replacing what
    /// that scope held for `key`. The enclosing scopes are left as they were.
    pub fn insert(&mut self, key: String, expression: Expression<S>)
        ensures
            final(self)@ == old(self)@.update(0, old(self)@[0].insert(key@, expression)),
    {
        self.hash_map.insert(key, expression);
        assert(final(self)@ =~= old(self)@.update(0, old(self)@[0].insert(key@, expression)));
    }

    /// The expression bound to `key` in the nearest scope that binds it.
    pub fn value_for_key(&self, key: &String) -> (found: Result<&Expression<S>, EvalError>)
        ensures
            match Self::resolve(self@, key@) {
                Some(expression) => found == Ok::<&Expression<S>, EvalError>(&expression),
                None => found == Err::<&Expression<S>, EvalError>(EvalError::UnboundVariable(*key)),
            },
        decreases self,
    {
        assert(self@.len() >= 1 && self@[0] == self.hash_map@);
        match self.hash_map.get(key.as_str()) {
            Some(expression) => Ok(expression),
            None => match &self.parent {
                Some(environment) => {
                    assert(self@.drop_first() =~= environment@);
                    environment.value_for_key(key)
                },
                None => {
                    assert(self@.drop_first() =~= Seq::empty());
                    assert(Self::resolve(self@.drop_first(), key@) is None);
                    Err(EvalError::UnboundVariable(key.clone()))
                },
            },
        }
    }
}

} // verus!
