use lox_interp::environment::EnvironmentTree;
use lox_interp::interpreter::ErrorKind;
use lox_interp::token::{Object, Token};
use lox_interp::token_type::TokenType;

fn ident(name: &str, line: usize) -> Token {
    Token::new(TokenType::Identifier, name.to_string(), Object::NULL, line, 1)
}

fn number(value: f64) -> Object {
    Object::Number(value.to_bits())
}

fn as_number(value: &Object) -> f64 {
    match value {
        Object::Number(bits) => f64::from_bits(*bits),
        other => panic!("not a number: {:?}", other),
    }
}

#[test]
fn define_then_get_reads_the_value() {
    let mut env = EnvironmentTree::new();
    env.define("x".to_string(), number(1.5));
    assert_eq!(as_number(&env.get(ident("x", 1)).unwrap()), 1.5);
    env.define("x".to_string(), number(2.5));
    assert_eq!(as_number(&env.get(ident("x", 1)).unwrap()), 2.5);
}

#[test]
fn get_of_unbound_name_is_an_error() {
    let env = EnvironmentTree::new();
    let err = env.get(ident("x", 7)).unwrap_err();
    assert_eq!(err.kind, ErrorKind::UndefinedName);
    assert_eq!(err.message, "Undefined variable 'x'");
    assert_eq!(err.line, 7);
}

#[test]
fn child_definition_does_not_leak() {
    let mut env = EnvironmentTree::new();
    env.define("x".to_string(), number(1.0));
    let outer = env.get_current();
    env.enter_child_scope();
    assert_ne!(env.get_current(), outer);
    env.define("x".to_string(), number(2.0));
    env.define("y".to_string(), number(3.0));
    assert_eq!(as_number(&env.get(ident("x", 1)).unwrap()), 2.0);
    env.exit_scope();
    assert_eq!(env.get_current(), outer);
    assert_eq!(as_number(&env.get(ident("x", 1)).unwrap()), 1.0);
    assert!(env.get(ident("y", 1)).is_err());
}

#[test]
fn assign_in_inner_scope_changes_outer_binding() {
    let mut env = EnvironmentTree::new();
    env.define("x".to_string(), number(1.0));
    env.enter_child_scope();
    env.enter_child_scope();
    assert!(env.assign(ident("x", 1), &number(9.0)).is_ok());
    assert_eq!(as_number(&env.get(ident("x", 1)).unwrap()), 9.0);
    env.exit_scope();
    assert_eq!(as_number(&env.get(ident("x", 1)).unwrap()), 9.0);
    env.exit_scope();
    assert_eq!(as_number(&env.get(ident("x", 1)).unwrap()), 9.0);
}

#[test]
fn assign_never_defines() {
    let mut env = EnvironmentTree::new();
    let err = env.assign(ident("x", 3), &Object::Boolean(true)).unwrap_err();
    assert_eq!(err.kind, ErrorKind::UndefinedName);
    assert_eq!(err.line, 3);
    assert!(env.get(ident("x", 3)).is_err());
}

#[test]
fn exit_at_the_root_changes_nothing() {
    let mut env = EnvironmentTree::new();
    let root = env.get_current();
    env.exit_scope();
    assert_eq!(env.get_current(), root);
}

#[test]
fn set_current_splices_to_another_scope() {
    let mut env = EnvironmentTree::new();
    env.define("g".to_string(), number(1.0));
    let root = env.get_current();
    env.enter_child_scope();
    env.define("a".to_string(), number(2.0));
    let first = env.get_current();
    env.set_current(root);
    env.enter_child_scope();
    assert!(env.get(ident("a", 1)).is_err());
    assert_eq!(as_number(&env.get(ident("g", 1)).unwrap()), 1.0);
    env.set_current(first);
    assert_eq!(as_number(&env.get(ident("a", 1)).unwrap()), 2.0);
}
