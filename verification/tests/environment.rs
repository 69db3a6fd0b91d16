//! Scopes: definition, lookup and assignment.
use rilox::environment::Environment;
use rilox::err::LoxErr;
use rilox::object::Object;
use rilox::token::Token;
use rilox::token_type::TokenType;

fn number(value: f64) -> Object {
    Object::Number(value.to_bits())
}

#[test]
fn test_get_existing() {
    let mut env = Environment::new();
    let token = Token::new(TokenType::Identifier, "x".to_string(), number(42.0), 1);
    env.define(0, "x", number(42.0));
    match env.get(0, &token) {
        Ok(value) => assert_eq!(value, number(42.0)),
        Err(_) => panic!("Expected Ok(Object::Number(42.0))"),
    };
}

#[test]
fn test_get_non_existing() {
    let env = Environment::new();
    let token = Token::new(TokenType::Identifier, "x".to_string(), number(0.0), 1);
    match env.get(0, &token) {
        Ok(_) => panic!("Expected an error for undefined variable"),
        Err(err) => match err {
            LoxErr::Runtime { line, message } => {
                assert_eq!(line, 1);
                assert_eq!(message, "Undefined variable 'x'.");
            }
            _ => panic!("Unexpected error type"),
        },
    };
}

#[test]
fn test_assign_existing() {
    let mut env = Environment::new();
    let token = Token::new(TokenType::Identifier, "x".to_string(), number(42.0), 1);
    env.define(0, "x", number(42.0));
    assert!(env.assign(0, &token, number(100.0)).is_ok());
    match env.get(0, &token) {
        Ok(value) => assert_eq!(value, number(100.0)),
        Err(_) => panic!("Expected Ok(Object::Number(100.0))"),
    };
}

#[test]
fn test_assign_non_existing() {
    let mut env = Environment::new();
    let token = Token::new(TokenType::Identifier, "x".to_string(), number(0.0), 1);
    match env.assign(0, &token, number(100.0)) {
        Ok(_) => panic!("Expected an error for undefined variable"),
        Err(err) => match err {
            LoxErr::Runtime { line, message } => {
                assert_eq!(line, 1);
                assert_eq!(message, "Undefined variable 'x'.");
            }
            _ => panic!("Unexpected error type"),
        },
    };
}

fn name(text: &str) -> Token {
    Token::new(TokenType::Identifier, text.to_string(), Object::Nil, 7)
}

#[test]
fn lookup_walks_outwards_and_inner_names_shadow() {
    let mut env = Environment::new();
    env.define(0, "a", number(1.0));
    env.define(0, "b", number(2.0));
    let inner = env.nested(0);
    assert_eq!(inner, 1);
    env.define(inner, "a", number(10.0));
    assert_eq!(env.get(inner, &name("a")).unwrap(), number(10.0));
    assert_eq!(env.get(inner, &name("b")).unwrap(), number(2.0));
    assert_eq!(env.get(0, &name("a")).unwrap(), number(1.0));
    assert_eq!(env.find(inner, "a"), Some(1));
    assert_eq!(env.find(inner, "b"), Some(0));
    assert_eq!(env.find(inner, "c"), None);
}

#[test]
fn assignment_writes_to_the_binding_scope() {
    let mut env = Environment::new();
    env.define(0, "b", number(2.0));
    let inner = env.nested(0);
    assert!(env.assign(inner, &name("b"), number(3.0)).is_ok());
    assert_eq!(env.get(0, &name("b")).unwrap(), number(3.0));
    assert!(!env.contains_at(inner, 0, "b"));
    assert!(env.contains_at(inner, 1, "b"));
}

#[test]
fn distances_count_scopes() {
    let mut env = Environment::new();
    env.define(0, "x", number(1.0));
    let middle = env.nested(0);
    env.define(middle, "x", number(2.0));
    let inner = env.nested(middle);
    env.define(inner, "x", number(3.0));
    assert_eq!(env.get_at(inner, 0, "x"), number(3.0));
    assert_eq!(env.get_at(inner, 1, "x"), number(2.0));
    assert_eq!(env.get_at(inner, 2, "x"), number(1.0));
    assert_eq!(env.ancestor(inner, 2), 0);
    assert_eq!(env.find_ancestor(inner, 3), None);
    assert!(!env.contains_at(inner, 3, "x"));
    env.assign_at(inner, 1, &name("x"), number(20.0));
    assert_eq!(env.get_at(inner, 1, "x"), number(20.0));
    assert_eq!(env.get_at(inner, 0, "x"), number(3.0));
    assert_eq!(env.get_at(middle, 0, "x"), number(20.0));
}

#[test]
fn define_rebinds() {
    let mut env = Environment::new();
    env.define(0, "x", number(1.0));
    env.define(0, "x", Object::String("s".to_string()));
    assert_eq!(env.get(0, &name("x")).unwrap(), Object::String("s".to_string()));
}

#[test]
fn a_scope_can_be_put_inside_an_older_one() {
    let mut env = Environment::new();
    env.define(0, "x", number(1.0));
    let scope = env.add_scope();
    assert!(env.get(scope, &name("x")).is_err());
    env.set_enclosing(scope, 0);
    assert_eq!(env.get(scope, &name("x")).unwrap(), number(1.0));
}
