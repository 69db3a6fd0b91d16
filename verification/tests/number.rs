//! Numbers as bit patterns, held against the machine's own arithmetic.
use rilox::err::LoxErr;
use rilox::number::{equal, less, less_equal, nan, negate, zero};
use rilox::object::Object;
use rilox::operation::{apply_binary, apply_unary, left_decides, Computed};
use rilox::text::{characters, collect, decimal};
use rilox::token_type::TokenType;

fn samples() -> Vec<f64> {
    vec![
        0.0,
        -0.0,
        1.0,
        -1.0,
        0.5,
        -0.5,
        2.0,
        123.0,
        45.67,
        -45.67,
        1e300,
        -1e300,
        5e-324,
        -5e-324,
        f64::MAX,
        f64::MIN,
        f64::MIN_POSITIVE,
        f64::INFINITY,
        f64::NEG_INFINITY,
        f64::NAN,
        -f64::NAN,
    ]
}

#[test]
fn order_and_equality_are_those_of_the_numbers() {
    for a in samples() {
        for b in samples() {
            assert_eq!(less(a.to_bits(), b.to_bits()), a < b, "{} < {}", a, b);
            assert_eq!(less_equal(a.to_bits(), b.to_bits()), a <= b, "{} <= {}", a, b);
            assert_eq!(equal(a.to_bits(), b.to_bits()), a == b, "{} == {}", a, b);
        }
    }
}

#[test]
fn sign_zero_and_nan() {
    for a in samples() {
        assert_eq!(negate(a.to_bits()), (-a).to_bits());
        assert_eq!(zero(a.to_bits()), a == 0.0);
        assert_eq!(nan(a.to_bits()), a.is_nan());
    }
}

fn number(value: f64) -> Object {
    Object::Number(value.to_bits())
}

fn text(value: &str) -> Object {
    Object::String(value.to_string())
}

fn value_of(computed: Computed) -> Object {
    match computed {
        Computed::Value(v) => v,
        other => panic!("no value: {:?}", other),
    }
}

fn failure_of(computed: Computed) -> String {
    match computed {
        Computed::Failure(message) => message,
        other => panic!("no failure: {:?}", other),
    }
}

#[test]
fn binary_operators() {
    assert_eq!(value_of(apply_binary(TokenType::Plus, &text("a"), &text("b"))), text("ab"));
    assert_eq!(
        failure_of(apply_binary(TokenType::Plus, &text("a"), &number(1.0))),
        "Operands must be two numbers or two strings."
    );
    assert_eq!(failure_of(apply_binary(TokenType::Minus, &text("a"), &number(1.0))), "Operand(s) must be a number.");
    assert_eq!(failure_of(apply_binary(TokenType::Less, &Object::Nil, &number(1.0))), "Operand(s) must be a number.");
    assert_eq!(failure_of(apply_binary(TokenType::Bang, &number(1.0), &number(1.0))), "Unknown operator.");
    for (operator, expected) in [
        (TokenType::Less, true),
        (TokenType::LessEqual, true),
        (TokenType::Greater, false),
        (TokenType::GreaterEqual, false),
        (TokenType::EqualEqual, false),
        (TokenType::BangEqual, true),
    ] {
        assert_eq!(value_of(apply_binary(operator, &number(1.0), &number(2.0))), Object::Bool(expected));
    }
    assert_eq!(value_of(apply_binary(TokenType::GreaterEqual, &number(2.0), &number(2.0))), Object::Bool(true));
    assert_eq!(value_of(apply_binary(TokenType::EqualEqual, &Object::Nil, &Object::Nil)), Object::Bool(true));
    assert_eq!(value_of(apply_binary(TokenType::EqualEqual, &Object::Nil, &Object::Bool(false))), Object::Bool(false));
    assert_eq!(value_of(apply_binary(TokenType::EqualEqual, &Object::Bool(true), &number(1.0))), Object::Bool(false));
    assert_eq!(value_of(apply_binary(TokenType::EqualEqual, &Object::Function(1), &Object::Function(1))), Object::Bool(true));
    assert_eq!(value_of(apply_binary(TokenType::EqualEqual, &Object::Function(1), &Object::Function(2))), Object::Bool(false));
    assert_eq!(value_of(apply_binary(TokenType::EqualEqual, &Object::Instance(1), &Object::Class(1))), Object::Bool(false));
    assert_eq!(value_of(apply_binary(TokenType::BangEqual, &number(f64::NAN), &number(f64::NAN))), Object::Bool(true));
    for operator in [TokenType::Plus, TokenType::Minus, TokenType::Star, TokenType::Slash] {
        match apply_binary(operator, &number(6.0), &number(3.0)) {
            Computed::Arithmetic { operator: asked, left, right } => {
                assert_eq!(asked, operator);
                assert_eq!(left, 6f64.to_bits());
                assert_eq!(right, 3f64.to_bits());
            }
            other => panic!("no arithmetic: {:?}", other),
        }
    }
    for divisor in [0.0, -0.0] {
        match apply_binary(TokenType::Slash, &number(6.0), &number(divisor)) {
            Computed::DivideByZero { left } => assert_eq!(left, 6f64.to_bits()),
            other => panic!("no division by zero: {:?}", other),
        }
    }
}

#[test]
fn unary_operators() {
    assert_eq!(value_of(apply_unary(TokenType::Minus, &number(3.0))), number(-3.0));
    assert_eq!(value_of(apply_unary(TokenType::Bang, &Object::Nil)), Object::Bool(true));
    assert_eq!(value_of(apply_unary(TokenType::Bang, &number(0.0))), Object::Bool(false));
    assert_eq!(value_of(apply_unary(TokenType::Bang, &text(""))), Object::Bool(false));
    assert_eq!(value_of(apply_unary(TokenType::Bang, &Object::Bool(false))), Object::Bool(true));
    assert_eq!(failure_of(apply_unary(TokenType::Minus, &text("a"))), "Operand must be a number.");
    assert_eq!(failure_of(apply_unary(TokenType::Plus, &number(1.0))), "Unknown operator.");
}

#[test]
fn short_circuit() {
    assert!(left_decides(TokenType::Or, &number(0.0)));
    assert!(!left_decides(TokenType::Or, &Object::Nil));
    assert!(left_decides(TokenType::And, &Object::Bool(false)));
    assert!(!left_decides(TokenType::And, &text("")));
}

#[test]
fn truth_and_default() {
    assert!(!Object::Nil.is_truthy());
    assert!(!Object::Bool(false).is_truthy());
    assert!(Object::Bool(true).is_truthy());
    assert!(number(0.0).is_truthy());
    assert!(text("").is_truthy());
    assert!(Object::Class(0).is_truthy());
    assert_eq!(Object::default(), Object::Nil);
    assert_eq!(text("abc").clone(), text("abc"));
}

#[test]
fn decimal_spelling() {
    assert_eq!(decimal(0), "0");
    assert_eq!(decimal(7), "7");
    assert_eq!(decimal(10), "10");
    assert_eq!(decimal(255), "255");
    assert_eq!(decimal(1234567890), "1234567890");
    assert_eq!(decimal(usize::MAX), usize::MAX.to_string());
}

#[test]
fn characters_of_text() {
    assert_eq!(characters("a\u{e9}\u{4e16}b"), vec!['a', '\u{e9}', '\u{4e16}', 'b']);
    assert_eq!(characters(""), Vec::<char>::new());
    let chars = characters("hello world");
    assert_eq!(collect(&chars, 6, 11), "world");
    assert_eq!(collect(&chars, 3, 3), "");
}

#[test]
fn diagnostics_as_text() {
    assert_eq!(LoxErr::ScriptUsage.to_text(), "Usage: rilox [script]");
    assert_eq!(
        LoxErr::Scan { line: 3, message: "Unexpected character.".to_string() }.to_text(),
        "Scan Error: [line 3] Unexpected character."
    );
    assert_eq!(
        LoxErr::Parse { line: 12, lexeme: "end".to_string(), message: "Expect expression.".to_string() }.to_text(),
        "Parse Error: [line 12] at end. Expect expression."
    );
    assert_eq!(
        LoxErr::Runtime { line: 100, message: "m".to_string() }.to_text(),
        "Runtime Error: [line 100] m"
    );
    assert_eq!(LoxErr::Resolve { line: 1, message: "r".to_string() }.to_text(), "Resolve Error: [line 1] r");
    assert_eq!(
        LoxErr::Many(vec![LoxErr::ScriptUsage, LoxErr::Resolve { line: 2, message: "r".to_string() }]).to_text(),
        "Usage: rilox [script]\nResolve Error: [line 2] r\n"
    );
}
