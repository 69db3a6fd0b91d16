//! Distances and static rules.
use rilox::expr::Expr;
use rilox::parser::Parser;
use rilox::resolution::{ClassType, FunctionType};
use rilox::resolver::Resolver;
use rilox::scanner::Scanner;
use rilox::stmt::{FunctionDeclaration, Stmt};
use rilox::object::Object;
use rilox::token::Token;
use rilox::token_type::TokenType;

fn resolve(source: &str) -> (Vec<Stmt>, Vec<String>) {
    let mut scanner = Scanner::new(source);
    assert!(scanner.scan_tokens().is_ok());
    let tokens = scanner.tokens;
    let mut parser = Parser::new(&tokens);
    let mut statements = parser.parse();
    assert!(parser.errors.is_empty());
    let mut resolver = Resolver::new();
    resolver.resolve(&mut statements);
    assert_eq!(resolver.had_resolve_error, !resolver.errors.is_empty());
    (statements, resolver.errors.iter().map(|e| e.to_text()).collect())
}

/// The names that the expression uses, each with its distance, in the order
/// in which they stand.
fn uses_in_expr(expression: &Expr, found: &mut Vec<(String, Option<usize>)>) {
    match expression {
        Expr::Assign(a) => {
            found.push((format!("{}=", a.name.lexeme), a.distance));
            uses_in_expr(&a.value, found);
        }
        Expr::Binary(b) => {
            uses_in_expr(&b.left, found);
            uses_in_expr(&b.right, found);
        }
        Expr::Call(c) => {
            uses_in_expr(&c.callee, found);
            for argument in &c.arguments {
                uses_in_expr(argument, found);
            }
        }
        Expr::Get(g) => uses_in_expr(&g.object, found),
        Expr::Grouping(g) => uses_in_expr(&g.expression, found),
        Expr::Literal(_) => {}
        Expr::Logical(l) => {
            uses_in_expr(&l.left, found);
            uses_in_expr(&l.right, found);
        }
        Expr::SetField(s) => {
            uses_in_expr(&s.object, found);
            uses_in_expr(&s.value, found);
        }
        Expr::Super(s) => found.push(("super".to_string(), s.distance)),
        Expr::This(t) => found.push(("this".to_string(), t.distance)),
        Expr::Unary(u) => uses_in_expr(&u.right, found),
        Expr::Variable(v) => found.push((v.name.lexeme.clone(), v.distance)),
    }
}

fn uses_in_function(function: &FunctionDeclaration, found: &mut Vec<(String, Option<usize>)>) {
    for statement in &function.body {
        uses_in_stmt(statement, found);
    }
}

fn uses_in_stmt(statement: &Stmt, found: &mut Vec<(String, Option<usize>)>) {
    match statement {
        Stmt::Block { statements } => {
            for s in statements {
                uses_in_stmt(s, found);
            }
        }
        Stmt::ClassDeclaration { class_declaration } => {
            if let Some(parent) = &class_declaration.superclass {
                found.push((parent.name.lexeme.clone(), parent.distance));
            }
            for method in &class_declaration.methods {
                uses_in_function(method, found);
            }
        }
        Stmt::Expression { expression } => uses_in_expr(expression, found),
        Stmt::FunctionDeclaration { function_declaration } => {
            uses_in_function(function_declaration, found)
        }
        Stmt::If { condition, then_branch, else_branch } => {
            uses_in_expr(condition, found);
            uses_in_stmt(then_branch, found);
            if let Some(other) = else_branch {
                uses_in_stmt(other, found);
            }
        }
        Stmt::While { condition, body } => {
            uses_in_expr(condition, found);
            uses_in_stmt(body, found);
        }
        Stmt::Print { expression } => uses_in_expr(expression, found),
        Stmt::Return { value, .. } => {
            if let Some(e) = value {
                uses_in_expr(e, found);
            }
        }
        Stmt::Var { initializer, .. } => {
            if let Some(e) = initializer {
                uses_in_expr(e, found);
            }
        }
    }
}

fn uses(source: &str) -> Vec<(String, Option<usize>)> {
    let (statements, errors) = resolve(source);
    assert_eq!(errors, Vec::<String>::new());
    let mut found = Vec::new();
    for statement in &statements {
        uses_in_stmt(statement, &mut found);
    }
    found
}

fn named(pairs: &[(&str, Option<usize>)]) -> Vec<(String, Option<usize>)> {
    pairs.iter().map(|(n, d)| (n.to_string(), *d)).collect()
}

#[test]
fn a_distance_counts_the_scopes_in_between() {
    assert_eq!(
        uses("var g; { var a; { var b; { print a; print b; print g; var c; print c; } print a; } }"),
        named(&[("a", Some(2)), ("b", Some(1)), ("g", None), ("c", Some(0)), ("a", Some(1))])
    );
}

#[test]
fn globals_have_no_distance() {
    assert_eq!(uses("var a = 1; print a; a = 2; fun f() {} f();"), named(&[("a", None), ("a=", None), ("f", None)]));
}

#[test]
fn the_nearest_declaration_counts() {
    assert_eq!(
        uses("{ var a; { var a; print a; } print a; }"),
        named(&[("a", Some(0)), ("a", Some(0))])
    );
    assert_eq!(
        uses("var a; { fun show() { print a; } var a; print a; }"),
        named(&[("a", None), ("a", Some(0))])
    );
}

#[test]
fn parameters_and_bodies_share_a_scope() {
    assert_eq!(
        uses("fun f(x) { print x; var y; { y = x; } fun g() { return x + y; } }"),
        named(&[("x", Some(0)), ("y=", Some(1)), ("x", Some(1)), ("x", Some(1)), ("y", Some(1))])
    );
}

#[test]
fn this_and_super_lie_around_the_methods() {
    assert_eq!(
        uses("class A { m() { return this; } } class B < A { m() { super.m(); { this.x = 1; } } }"),
        named(&[("this", Some(1)), ("A", None), ("super", Some(2)), ("this", Some(2))])
    );
    assert_eq!(
        uses("{ class A {} class B < A { init() { fun f() { return this; } } } }"),
        named(&[("A", Some(0)), ("this", Some(2))])
    );
}

#[test]
fn scopes_begin_and_end() {
    let mut resolver = Resolver::new();
    assert_eq!(resolver.scopes.len(), 0);
    assert_eq!(resolver.current_function, FunctionType::NoFunction);
    assert_eq!(resolver.current_class, ClassType::NoClass);
    assert!(!resolver.had_resolve_error);
    assert!(resolver.visit_literal_expr().is_ok());
    let name = |text: &str| Token::new(TokenType::Identifier, text.to_string(), Object::Nil, 9);
    assert!(resolver.declare(&name("g")).is_ok());
    assert!(resolver.declare(&name("g")).is_ok());
    assert_eq!(resolver.distance_of("g"), None);
    resolver.begin_scope();
    assert_eq!(resolver.scopes.len(), 1);
    assert!(resolver.declare(&name("a")).is_ok());
    assert_eq!(
        resolver.declare(&name("a")).unwrap_err().to_text(),
        "Resolve Error: [line 9] Already a variable with this name in this scope."
    );
    resolver.define(&name("a"));
    assert_eq!(resolver.distance_of("a"), Some(0));
    resolver.begin_scope();
    assert_eq!(resolver.distance_of("a"), Some(1));
    assert!(resolver.declare(&name("a")).is_ok());
    assert_eq!(resolver.distance_of("a"), Some(0));
    resolver.end_scope();
    assert_eq!(resolver.distance_of("a"), Some(0));
    resolver.end_scope();
    assert_eq!(resolver.distance_of("a"), None);
    resolver.end_scope();
    assert_eq!(resolver.scopes.len(), 0);
}

#[test]
fn failures_are_gathered() {
    let (_, errors) = resolve("return 1;\n{ var a; var a; }\nprint this;\nfun f() { return 2; }");
    assert_eq!(
        errors,
        vec![
            "Resolve Error: [line 1] Can't return from top-level code.".to_string(),
            "Resolve Error: [line 2] Already a variable with this name in this scope.".to_string(),
            "Resolve Error: [line 3] Can't use 'this' outside of a class.".to_string(),
        ]
    );
}

#[test]
fn a_bare_return_is_allowed_in_an_initializer() {
    let (_, errors) = resolve("class A { init() { return; } m() { return 1; } }");
    assert_eq!(errors, Vec::<String>::new());
}

fn resolver_after(source: &str) -> (Resolver, Vec<String>) {
    let mut scanner = Scanner::new(source);
    assert!(scanner.scan_tokens().is_ok());
    let tokens = scanner.tokens;
    let mut parser = Parser::new(&tokens);
    let mut statements = parser.parse();
    assert!(parser.errors.is_empty());
    let mut resolver = Resolver::new();
    resolver.resolve(&mut statements);
    let errors = resolver.errors.iter().map(|e| e.to_text()).collect();
    (resolver, errors)
}

#[test]
fn a_failure_leaves_no_scope_and_no_context_behind() {
    for source in [
        "fun f(a, a) {}",
        "class A < A {}",
        "class A { m(a, a) {} }",
        "class A < B { m(a, a) {} n() {} }",
        "{ class A {} class A {} }",
        "{ var a = a; }",
        "{ class B < B {} }",
        "{ { class C < C { m() {} } } }",
        "fun f() { class A { init() { return 1; } } }",
        "{ class D < D2 { m() { fun g(x, x) {} } } }",
    ] {
        let (resolver, errors) = resolver_after(source);
        assert!(!errors.is_empty(), "{}", source);
        assert!(resolver.had_resolve_error);
        assert_eq!(resolver.scopes.len(), 0, "{}", source);
        assert_eq!(resolver.current_function, FunctionType::NoFunction, "{}", source);
        assert_eq!(resolver.current_class, ClassType::NoClass, "{}", source);
    }
}

#[test]
fn what_follows_a_failure_is_resolved_where_it_stands() {
    let (_, errors) = resolve("fun f(a, a) {}\nvar x; var x;\nprint this;\nreturn;");
    assert_eq!(
        errors,
        vec![
            "Resolve Error: [line 1] Already a variable with this name in this scope.".to_string(),
            "Resolve Error: [line 3] Can't use 'this' outside of a class.".to_string(),
            "Resolve Error: [line 4] Can't return from top-level code.".to_string(),
        ]
    );
    let (_, errors) = resolve("class A < A {}\nclass B { m() { return super.m; } }\nfun g() { return this; }");
    assert_eq!(
        errors,
        vec![
            "Resolve Error: [line 1] A class can't inherit from itself.".to_string(),
            "Resolve Error: [line 2] Can't use 'super' in a class with no superclass.".to_string(),
            "Resolve Error: [line 3] Can't use 'this' outside of a class.".to_string(),
        ]
    );
}

#[test]
fn a_failed_initializer_still_defines_its_variable() {
    let (_, errors) = resolve("{ var a = a; print a; a = 1; }");
    assert_eq!(
        errors,
        vec!["Resolve Error: [line 1] Can't read local variable in its own initializer.".to_string()]
    );
}
