//! The interpreter step by step.
use rilox::expr::{BinaryExpr, Expr, LiteralExpr, VariableExpr};
use rilox::interpreter::{runtime, Action, Control, Event, Interpreter, Pending};
use rilox::lox_class::LoxClass;
use rilox::lox_function::LoxFunction;
use rilox::lox_instance::{undefined_property_error, LoxInstance};
use rilox::object::{NativeFunction, Object};
use rilox::stmt::{FunctionDeclaration, Stmt};
use rilox::token::Token;
use rilox::token_type::TokenType;
use vstd::hash_map::StringHashMap;

fn number(value: f64) -> Expr {
    Expr::Literal(LiteralExpr::new(Object::Number(value.to_bits())))
}

fn token(token_type: TokenType, lexeme: &str, line: usize) -> Token {
    Token::new(token_type, lexeme.to_string(), Object::Nil, line)
}

fn print(expression: Expr) -> Stmt {
    Stmt::Print { expression }
}

#[test]
fn a_new_interpreter_rests() {
    let mut interpreter = Interpreter::new();
    assert!(!interpreter.had_runtime_error);
    assert_eq!(interpreter.environment, 0);
    assert_eq!(interpreter.globals, 0);
    assert!(matches!(interpreter.control, Control::Idle));
    assert!(matches!(interpreter.step(Event::Resume), Action::Finished));
    assert!(matches!(interpreter.step(Event::Number(1)), Action::Finished));
    let clock = token(TokenType::Identifier, "clock", 1);
    match interpreter.scopes.get(0, &clock) {
        Ok(Object::NativeFunction(native)) => {
            assert_eq!(native.name, "clock");
            assert_eq!(native.arity(), 0);
        }
        other => panic!("no clock: {:?}", other),
    }
}

#[test]
fn the_host_is_asked_for_arithmetic_until_it_answers() {
    let program = vec![print(Expr::Binary(BinaryExpr::new(
        number(1.0),
        token(TokenType::Plus, "+", 1),
        number(2.0),
    )))];
    let mut interpreter = Interpreter::new();
    interpreter.interpret(&program);
    let mut action = interpreter.step(Event::Resume);
    let mut steps = 1;
    while matches!(action, Action::Continue) {
        action = interpreter.step(Event::Resume);
        steps += 1;
    }
    assert_eq!(steps, 7);
    let asked = |action: &Action| match action {
        Action::Arithmetic { operator, left, right } => {
            *operator == TokenType::Plus && *left == 1f64.to_bits() && *right == 2f64.to_bits()
        }
        _ => false,
    };
    assert!(asked(&action));
    assert!(matches!(
        interpreter.control,
        Control::Awaiting(Pending::Arithmetic { operator: TokenType::Plus, .. })
    ));
    assert!(asked(&interpreter.step(Event::Resume)));
    assert!(asked(&interpreter.step(Event::Text("3".to_string()))));
    assert!(matches!(interpreter.step(Event::Number(3f64.to_bits())), Action::Continue));
    match interpreter.step(Event::Resume) {
        Action::FormatNumber(bits) => assert_eq!(bits, 3f64.to_bits()),
        other => panic!("no number to spell: {:?}", other),
    }
    match interpreter.step(Event::Number(0)) {
        Action::FormatNumber(bits) => assert_eq!(bits, 3f64.to_bits()),
        other => panic!("no number to spell: {:?}", other),
    }
    match interpreter.step(Event::Text("three".to_string())) {
        Action::Print(line) => assert_eq!(line, "three"),
        other => panic!("nothing printed: {:?}", other),
    }
    assert!(matches!(interpreter.step(Event::Resume), Action::Continue));
    assert!(matches!(interpreter.step(Event::Resume), Action::Finished));
    assert!(matches!(interpreter.step(Event::Resume), Action::Finished));
    assert!(!interpreter.had_runtime_error);
}

#[test]
fn run_stops_at_its_budget_and_at_the_host() {
    let program = vec![print(Expr::Literal(LiteralExpr::new(Object::Bool(true))))];
    let mut interpreter = Interpreter::new();
    interpreter.interpret(&program);
    assert!(matches!(interpreter.run(2), Action::Continue));
    assert!(matches!(interpreter.control, Control::Evaluate(_)));
    match interpreter.run(100) {
        Action::Print(line) => assert_eq!(line, "true"),
        other => panic!("nothing printed: {:?}", other),
    }
    assert!(matches!(interpreter.run(1), Action::Continue));
    assert!(matches!(interpreter.run(100), Action::Finished));
}

#[test]
fn a_failure_resets_the_machine_and_keeps_the_store() {
    let program = vec![
        Stmt::Var { name: token(TokenType::Identifier, "a", 1), initializer: Some(number(1.0)) },
        Stmt::Block {
            statements: vec![print(Expr::Variable(VariableExpr::new(token(
                TokenType::Identifier,
                "missing",
                2,
            ))))],
        },
    ];
    let mut interpreter = Interpreter::new();
    interpreter.interpret(&program);
    match interpreter.run(1000) {
        Action::Failed(error) => {
            assert_eq!(error.to_text(), "Runtime Error: [line 2] Undefined variable 'missing'.")
        }
        other => panic!("no failure: {:?}", other),
    }
    assert!(interpreter.had_runtime_error);
    assert_eq!(interpreter.environment, interpreter.globals);
    assert_eq!(interpreter.frames.len(), 0);
    assert!(matches!(interpreter.control, Control::Idle));
    assert_eq!(
        interpreter.scopes.get(0, &token(TokenType::Identifier, "a", 1)).unwrap(),
        Object::Number(1f64.to_bits())
    );
    let again = vec![print(Expr::Variable(VariableExpr::new(token(TokenType::Identifier, "a", 1))))];
    interpreter.interpret(&again);
    assert!(matches!(interpreter.run(1000), Action::FormatNumber(_)));
}

#[test]
fn handles_that_the_store_does_not_hold_fail_softly() {
    let program = vec![
        Stmt::Expression {
            expression: Expr::Call(rilox::expr::CallExpr::new(
                Expr::Literal(LiteralExpr::new(Object::Function(99))),
                token(TokenType::RightParen, ")", 3),
                vec![],
            )),
        },
    ];
    let mut interpreter = Interpreter::new();
    interpreter.interpret(&program);
    match interpreter.run(1000) {
        Action::Failed(error) => {
            assert_eq!(error.to_text(), "Runtime Error: [line 3] Can only call functions and classes.")
        }
        other => panic!("no failure: {:?}", other),
    }
    assert_eq!(interpreter.stringify(&Object::Function(99)), "<fn >");
    assert_eq!(interpreter.stringify(&Object::Class(99)), "<class >");
    assert_eq!(interpreter.stringify(&Object::Instance(99)), "< instance>");
    assert_eq!(interpreter.stringify(&Object::Nil), "nil");
    assert_eq!(
        interpreter.stringify(&Object::NativeFunction(NativeFunction { name: "clock".to_string() })),
        "<native fn clock"
    );
}

#[test]
fn classes_find_methods_above_them() {
    let mut base_methods = StringHashMap::new();
    base_methods.insert("m".to_string(), 1usize);
    base_methods.insert("n".to_string(), 2usize);
    let mut sub_methods = StringHashMap::new();
    sub_methods.insert("m".to_string(), 3usize);
    let classes = vec![
        LoxClass::new("A".to_string(), None, base_methods),
        LoxClass::new("B".to_string(), Some(0), sub_methods),
    ];
    assert_eq!(LoxClass::find_method(&classes, 1, "m"), Some(3));
    assert_eq!(LoxClass::find_method(&classes, 1, "n"), Some(2));
    assert_eq!(LoxClass::find_method(&classes, 0, "m"), Some(1));
    assert_eq!(LoxClass::find_method(&classes, 1, "o"), None);
    assert_eq!(LoxClass::find_method(&classes, 7, "m"), None);
    assert_eq!(classes[1].name, "B");
    assert_eq!(classes[1].superclass, Some(0));
}

#[test]
fn binding_makes_a_scope_with_this() {
    let declaration = FunctionDeclaration {
        name: token(TokenType::Identifier, "init", 1),
        params: vec![token(TokenType::Identifier, "p", 1)],
        body: vec![],
    };
    let mut interpreter = Interpreter::new();
    interpreter.functions.push(LoxFunction::new(&declaration, 0, true));
    assert_eq!(interpreter.functions[0].arity(), 1);
    let mut methods = StringHashMap::new();
    methods.insert("init".to_string(), 0usize);
    interpreter.classes.push(LoxClass::new("A".to_string(), None, methods));
    assert_eq!(LoxClass::arity(&interpreter, 0), 1);
    interpreter.instances.push(LoxInstance::new(0));
    let first = LoxFunction::bind(&mut interpreter, 0, 0);
    let second = LoxFunction::bind(&mut interpreter, 0, 0);
    assert_eq!((first, second), (1, 2));
    for bound in [first, second] {
        let closure = interpreter.functions[bound].closure;
        assert!(interpreter.functions[bound].is_initializer);
        assert_eq!(interpreter.scopes.get_at(closure, 0, "this"), Object::Instance(0));
        assert_eq!(interpreter.scopes.find_ancestor(closure, 1), Some(0));
    }
    assert_ne!(interpreter.functions[first].closure, interpreter.functions[second].closure);

    let name = token(TokenType::Identifier, "field", 4);
    interpreter.instances[0].set(&name, Object::Bool(true));
    assert_eq!(LoxInstance::get(&mut interpreter, 0, &name).unwrap(), Object::Bool(true));
    let init = token(TokenType::Identifier, "init", 4);
    assert_eq!(LoxInstance::get(&mut interpreter, 0, &init).unwrap(), Object::Function(3));
    let missing = token(TokenType::Identifier, "nothing", 4);
    assert_eq!(
        LoxInstance::get(&mut interpreter, 0, &missing).unwrap_err().to_text(),
        "Runtime Error: [line 4] Undefined property 'nothing'."
    );
    assert_eq!(undefined_property_error(&missing).to_text(), "Runtime Error: [line 4] Undefined property 'nothing'.");

    LoxFunction::call(&mut interpreter, first, vec![Object::Nil]);
    assert_eq!(interpreter.frames.len(), 2);
    assert!(matches!(interpreter.control, Control::Completed));
    let scope = interpreter.environment;
    assert_eq!(interpreter.scopes.get_at(scope, 0, "p"), Object::Nil);
    assert_eq!(interpreter.scopes.get_at(scope, 1, "this"), Object::Instance(0));
    assert!(matches!(interpreter.run(100), Action::Finished));
    assert_eq!(interpreter.environment, 0);

    LoxClass::call(&mut interpreter, 0, vec![Object::Bool(false)]);
    assert_eq!(interpreter.instances.len(), 2);
    assert_eq!(interpreter.frames.len(), 3);
    assert!(matches!(interpreter.run(100), Action::Finished));
}

#[test]
fn small_parts() {
    assert!(Interpreter::is_truthy(&Object::Bool(true)));
    assert!(!Interpreter::is_truthy(&Object::Nil));
    match Interpreter::number_err(5) {
        Err(error) => assert_eq!(error.to_text(), "Runtime Error: [line 5] Operand must be a number."),
        Ok(_) => panic!("no failure"),
    }
    assert_eq!(runtime(6, "m").to_text(), "Runtime Error: [line 6] m");
    let variable = VariableExpr::new(token(TokenType::Identifier, "clock", 1));
    let interpreter = Interpreter::new();
    assert!(matches!(interpreter.look_up_variable(&variable), Ok(Object::NativeFunction(_))));
    let block: Vec<Stmt> = vec![];
    let mut interpreter = Interpreter::new();
    let inner = interpreter.scopes.nested(0);
    interpreter.execute_block(&block, inner);
    assert_eq!(interpreter.environment, inner);
    assert_eq!(interpreter.frames.len(), 1);
    assert!(matches!(interpreter.step(Event::Resume), Action::Continue));
    assert_eq!(interpreter.environment, 0);
    assert_eq!(interpreter.frames.len(), 0);
}

#[test]
fn a_failed_part_of_a_step_changes_nothing() {
    let declaration = rilox::stmt::ClassDeclaration {
        name: token(TokenType::Identifier, "A", 2),
        superclass: Some(VariableExpr::new(token(TokenType::Identifier, "NotClass", 2))),
        methods: vec![],
    };
    let statement = Stmt::ClassDeclaration { class_declaration: declaration };
    let mut interpreter = Interpreter::new();
    interpreter.scopes.define(0, "NotClass", Object::Number(1f64.to_bits()));
    let inner = interpreter.scopes.nested(0);
    interpreter.environment = inner;
    let failure = interpreter.execute(&statement).unwrap_err();
    assert_eq!(failure.to_text(), "Runtime Error: [line 2] Superclass must be a class.");
    assert_eq!(interpreter.environment, inner);
    assert_eq!(interpreter.frames.len(), 0);
    assert!(matches!(interpreter.control, Control::Idle));
    assert_eq!(interpreter.classes.len(), 0);
    assert!(interpreter.scopes.find(inner, "A").is_none());

    let missing = Expr::Variable(VariableExpr::new(token(TokenType::Identifier, "nowhere", 5)));
    let failure = interpreter.evaluate(&missing).unwrap_err();
    assert_eq!(failure.to_text(), "Runtime Error: [line 5] Undefined variable 'nowhere'.");
    assert_eq!(interpreter.environment, inner);
    assert_eq!(interpreter.frames.len(), 0);
    assert!(matches!(interpreter.control, Control::Idle));
}

#[test]
fn a_failing_expression_fails_the_same_way_each_time() {
    let expression = Expr::Binary(BinaryExpr::new(
        number(1.0),
        token(TokenType::Less, "<", 8),
        Expr::Literal(LiteralExpr::new(Object::String("a".to_string()))),
    ));
    let program = vec![print(expression)];
    let mut interpreter = Interpreter::new();
    let mut failures = Vec::new();
    for _ in 0..2 {
        interpreter.interpret(&program);
        match interpreter.run(1000) {
            Action::Failed(error) => failures.push(error.to_text()),
            other => panic!("no failure: {:?}", other),
        }
    }
    assert_eq!(failures[0], "Runtime Error: [line 8] Operand(s) must be a number.");
    assert_eq!(failures[0], failures[1]);
    let missing = Expr::Variable(VariableExpr::new(token(TokenType::Identifier, "nowhere", 5)));
    let first = interpreter.evaluate(&missing).unwrap_err().to_text();
    let second = interpreter.evaluate(&missing).unwrap_err().to_text();
    assert_eq!(first, second);
}

#[test]
fn a_method_read_twice_is_bound_twice_to_its_instance() {
    let source_method = FunctionDeclaration {
        name: token(TokenType::Identifier, "m", 1),
        params: vec![],
        body: vec![],
    };
    let mut interpreter = Interpreter::new();
    let closure = interpreter.scopes.nested(0);
    interpreter.functions.push(LoxFunction::new(&source_method, closure, false));
    let mut methods = StringHashMap::new();
    methods.insert("m".to_string(), 0usize);
    interpreter.classes.push(LoxClass::new("A".to_string(), None, methods));
    interpreter.classes.push(LoxClass::new("B".to_string(), Some(0), StringHashMap::new()));
    interpreter.instances.push(LoxInstance::new(1));
    let name = token(TokenType::Identifier, "m", 3);
    let first = LoxInstance::get(&mut interpreter, 0, &name).unwrap();
    let second = LoxInstance::get(&mut interpreter, 0, &name).unwrap();
    assert_eq!(first, Object::Function(1));
    assert_eq!(second, Object::Function(2));
    assert_ne!(interpreter.functions[1].closure, interpreter.functions[2].closure);
    for bound in [1usize, 2] {
        let scope = interpreter.functions[bound].closure;
        assert_eq!(interpreter.scopes.get_at(scope, 0, "this"), Object::Instance(0));
        assert_eq!(interpreter.scopes.find_ancestor(scope, 1), Some(closure));
        assert_eq!(interpreter.scopes.scopes[scope].values.len(), 1);
    }
    assert_eq!(interpreter.instances.len(), 1);
    assert_eq!(interpreter.instances[0].fields.len(), 0);
}
