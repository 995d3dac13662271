use rlox::environment::{Environment, EnvironmentList};
use rlox::value::LoxValue;

fn text(s: &str) -> LoxValue {
    LoxValue::String(s.to_string())
}

#[test]
fn a_scope_binds_what_is_declared_in_it() {
    let mut scope = Environment::new();
    assert_eq!(scope.get_var("x"), Err(()));
    scope.declare_var("x", LoxValue::Bool(true));
    assert_eq!(scope.get_var("x"), Ok(LoxValue::Bool(true)));
    scope.declare_var("x", LoxValue::Nil);
    assert_eq!(scope.get_var("x"), Ok(LoxValue::Nil));
    assert_eq!(scope.get_var("y"), Err(()));
}

#[test]
fn a_scope_assigns_only_to_what_it_binds() {
    let mut scope = Environment::new();
    assert_eq!(scope.set_var("x", text("a")), Err(()));
    assert_eq!(scope.get_var("x"), Err(()));
    scope.declare_var("x", LoxValue::Nil);
    assert_eq!(scope.set_var("x", text("a")), Ok(text("a")));
    assert_eq!(scope.get_var("x"), Ok(text("a")));
}

#[test]
fn a_new_chain_holds_the_global_scope() {
    let chain = EnvironmentList::new();
    assert_eq!(chain.depth(), 1);
    assert_eq!(chain.get_var("x"), Err(()));
}

#[test]
fn the_innermost_binding_is_found_first() {
    let mut chain = EnvironmentList::new();
    chain.declare_var("x", text("outer"));
    chain.declare_var("y", text("global"));
    chain.push_new_env();
    assert_eq!(chain.get_var("x"), Ok(text("outer")));
    chain.declare_var("x", text("inner"));
    assert_eq!(chain.get_var("x"), Ok(text("inner")));
    assert_eq!(chain.get_var("y"), Ok(text("global")));
    chain.pop_env();
    assert_eq!(chain.get_var("x"), Ok(text("outer")));
    assert_eq!(chain.depth(), 1);
}

#[test]
fn assignment_changes_the_innermost_binding() {
    let mut chain = EnvironmentList::new();
    chain.declare_var("x", text("outer"));
    chain.declare_var("y", text("global"));
    chain.push_new_env();
    chain.declare_var("x", text("inner"));
    assert_eq!(chain.set_var("x", text("changed")), Ok(text("changed")));
    assert_eq!(chain.set_var("y", text("reached")), Ok(text("reached")));
    assert_eq!(chain.get_var("x"), Ok(text("changed")));
    chain.pop_env();
    assert_eq!(chain.get_var("x"), Ok(text("outer")));
    assert_eq!(chain.get_var("y"), Ok(text("reached")));
}

#[test]
fn assignment_binds_nothing() {
    let mut chain = EnvironmentList::new();
    chain.push_new_env();
    assert_eq!(chain.set_var("x", LoxValue::Nil), Err(()));
    assert_eq!(chain.get_var("x"), Err(()));
    assert_eq!(chain.depth(), 2);
}

#[test]
fn truthiness_and_equality_of_values() {
    assert!(!LoxValue::Nil.truthiness());
    assert!(!LoxValue::Bool(false).truthiness());
    assert!(LoxValue::Bool(true).truthiness());
    assert!(LoxValue::Number(0).truthiness());
    assert!(text("").truthiness());
    assert!(LoxValue::Nil.equals(&LoxValue::Nil));
    assert!(text("a").equals(&text("a")));
    assert!(!text("a").equals(&text("b")));
    assert!(!text("1").equals(&LoxValue::Number(1.0f64.to_bits())));
    assert!(!LoxValue::Nil.equals(&LoxValue::Bool(false)));
    assert!(LoxValue::Number(0.0f64.to_bits()).equals(&LoxValue::Number((-0.0f64).to_bits())));
    assert!(!LoxValue::Number(f64::NAN.to_bits()).equals(&LoxValue::Number(f64::NAN.to_bits())));
    assert_eq!(text("a").clone(), text("a"));
}
