//! Chains of scopes: lookup, shadowing and insertion.

use interpreter::{Environment, EvalError, Expression, Hundredths};

fn num(count: i64) -> Expression<Hundredths> {
    Expression::Number(Hundredths(count))
}

fn key(name: &str) -> String {
    name.to_string()
}

#[test]
fn root_binds_nothing() {
    let root: Environment<Hundredths> = Environment::root();
    assert_eq!(root.value_for_key(&key("x")), Err(EvalError::UnboundVariable(key("x"))));
    assert_eq!(root.value_for_key(&key("")), Err(EvalError::UnboundVariable(key(""))));
}

#[test]
fn child_binds_nothing_of_its_own() {
    let child: Environment<Hundredths> = Environment::new(Environment::root());
    assert_eq!(child.value_for_key(&key("x")), Err(EvalError::UnboundVariable(key("x"))));
}

#[test]
fn lookup_returns_the_bound_expression() {
    let mut root = Environment::root();
    root.insert(key("x"), Expression::Add(vec![num(100), Expression::Variable(key("y"))]));
    assert_eq!(
        root.value_for_key(&key("x")),
        Ok(&Expression::Add(vec![num(100), Expression::Variable(key("y"))]))
    );
    assert_eq!(root.value_for_key(&key("y")), Err(EvalError::UnboundVariable(key("y"))));
}

#[test]
fn nearest_scope_wins() {
    let mut root = Environment::root();
    root.insert(key("x"), num(4200));
    root.insert(key("y"), num(1));
    let mut middle = Environment::new(root);
    middle.insert(key("x"), num(500));
    let mut inner = Environment::new(middle);
    inner.insert(key("z"), num(7));
    assert_eq!(inner.value_for_key(&key("x")), Ok(&num(500)));
    assert_eq!(inner.value_for_key(&key("y")), Ok(&num(1)));
    assert_eq!(inner.value_for_key(&key("z")), Ok(&num(7)));
    assert_eq!(inner.value_for_key(&key("w")), Err(EvalError::UnboundVariable(key("w"))));
}

#[test]
fn insert_overwrites_in_its_own_scope_only() {
    let mut root = Environment::root();
    root.insert(key("x"), num(1));
    let mut child = Environment::new(root);
    assert_eq!(child.value_for_key(&key("x")), Ok(&num(1)));
    child.insert(key("x"), num(2));
    assert_eq!(child.value_for_key(&key("x")), Ok(&num(2)));
    child.insert(key("x"), num(3));
    assert_eq!(child.value_for_key(&key("x")), Ok(&num(3)));
    let grandchild = Environment::new(child);
    assert_eq!(grandchild.value_for_key(&key("x")), Ok(&num(3)));
}

#[test]
fn names_are_compared_exactly() {
    let mut root = Environment::root();
    root.insert(key("foo"), num(1));
    assert_eq!(root.value_for_key(&key("Foo")), Err(EvalError::UnboundVariable(key("Foo"))));
    assert_eq!(root.value_for_key(&key("foo ")), Err(EvalError::UnboundVariable(key("foo "))));
    assert_eq!(root.value_for_key(&key("foo")), Ok(&num(1)));
}
