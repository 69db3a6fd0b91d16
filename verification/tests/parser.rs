//! Tokens to syntax trees.
use rilox::expr::Expr;
use rilox::object::Object;
use rilox::parser::{desugar_for, error_at, Parser};
use rilox::printer::Piece;
use rilox::scanner::Scanner;
use rilox::stmt::Stmt;
use rilox::token::Token;
use rilox::token_type::TokenType;

fn tokens_of(source: &str) -> Vec<Token> {
    let mut scanner = Scanner::new(source);
    assert!(scanner.scan_tokens().is_ok());
    let values: Vec<u64> =
        scanner.number_lexemes().iter().map(|l| l.parse::<f64>().unwrap().to_bits()).collect();
    scanner.set_numbers(&values);
    scanner.tokens
}

fn parse(source: &str) -> (Vec<Stmt>, Vec<String>) {
    let tokens = tokens_of(source);
    let mut parser = Parser::new(&tokens);
    assert_eq!(parser.current, 0);
    let statements = parser.parse();
    (statements, parser.errors.iter().map(|e| e.to_text()).collect())
}

fn text_of(expression: &Expr) -> String {
    let mut text = String::new();
    for piece in expression.pieces() {
        match piece {
            Piece::Text(s) => text.push_str(&s),
            Piece::Number(bits) => text.push_str(&f64::from_bits(bits).to_string()),
        }
    }
    text
}

fn expression(source: &str) -> String {
    let (statements, errors) = parse(source);
    assert_eq!(errors, Vec::<String>::new());
    assert_eq!(statements.len(), 1);
    match &statements[0] {
        Stmt::Expression { expression } => text_of(expression),
        other => panic!("no expression statement: {:?}", other),
    }
}

#[test]
fn precedence_and_associativity() {
    assert_eq!(expression("1 + 2 * 3;"), "(+ 1 (* 2 3))");
    assert_eq!(expression("1 * 2 + 3;"), "(+ (* 1 2) 3)");
    assert_eq!(expression("1 - 2 - 3;"), "(- (- 1 2) 3)");
    assert_eq!(expression("8 / 4 / 2;"), "(/ (/ 8 4) 2)");
    assert_eq!(expression("(1 + 2) * 3;"), "(* (group (+ 1 2)) 3)");
    assert_eq!(expression("1 < 2 == 3 >= 4;"), "(== (< 1 2) (>= 3 4))");
    assert_eq!(expression("1 == 2 != 3;"), "(!= (== 1 2) 3)");
    assert_eq!(expression("!-1;"), "(! (- 1))");
    assert_eq!(expression("-1 - -2;"), "(- (- 1) (- 2))");
    assert_eq!(expression("1 or 2 and 3 or 4;"), "(or (or 1 (and 2 3)) 4)");
    assert_eq!(expression("true and false == nil;"), "(and true (== false nil))");
    assert_eq!(expression("\"a\" + \"b\";"), "(+ a b)");
}

#[test]
fn assignment_leans_to_the_right() {
    assert_eq!(expression("a = b = 3;"), "(= a (= b 3))");
    assert_eq!(expression("a.b = 3;"), "(=nil b 3)");
    assert_eq!(expression("a.b.c = d = 3 or 4;"), "(=(. nil b) c (= d (or 3 4)))");
}

#[test]
fn calls_and_properties() {
    assert_eq!(expression("f();"), "(call nil)");
    assert_eq!(expression("f(1, 2)(3).g.h(4);"), "(call (. (. (call (call nil 1 2) 3) g) h) 4)");
    assert_eq!(expression("this.x;"), "(. this x)");
    assert_eq!(expression("super.m(1);"), "(call (super m) 1)");
}

#[test]
fn statements() {
    let (statements, errors) = parse(
        "var a; var b = 1; print b; { a; } if (a) b; if (a) b; else a; while (a) b; \
         fun f(x, y) { return; return x; } class A {} class B < A { m() {} n(p) {} }",
    );
    assert_eq!(errors, Vec::<String>::new());
    assert_eq!(statements.len(), 10);
    assert!(matches!(&statements[0], Stmt::Var { name, initializer: None } if name.lexeme == "a"));
    assert!(matches!(&statements[1], Stmt::Var { name, initializer: Some(_) } if name.lexeme == "b"));
    assert!(matches!(&statements[2], Stmt::Print { .. }));
    assert!(matches!(&statements[3], Stmt::Block { statements } if statements.len() == 1));
    assert!(matches!(&statements[4], Stmt::If { else_branch: None, .. }));
    assert!(matches!(&statements[5], Stmt::If { else_branch: Some(_), .. }));
    assert!(matches!(&statements[6], Stmt::While { .. }));
    assert!(statements[7].is_function_declaration());
    assert!(!statements[6].is_function_declaration());
    match &statements[7] {
        Stmt::FunctionDeclaration { function_declaration } => {
            assert_eq!(function_declaration.name.lexeme, "f");
            assert_eq!(function_declaration.params.len(), 2);
            assert_eq!(function_declaration.params[1].lexeme, "y");
            assert_eq!(function_declaration.body.len(), 2);
            assert!(matches!(&function_declaration.body[0], Stmt::Return { value: None, .. }));
            assert!(matches!(&function_declaration.body[1], Stmt::Return { value: Some(_), keyword } if keyword.lexeme == "return"));
        }
        other => panic!("no function: {:?}", other),
    }
    match &statements[8] {
        Stmt::ClassDeclaration { class_declaration } => {
            assert_eq!(class_declaration.name.lexeme, "A");
            assert!(class_declaration.superclass.is_none());
            assert_eq!(class_declaration.methods.len(), 0);
        }
        other => panic!("no class: {:?}", other),
    }
    match &statements[9] {
        Stmt::ClassDeclaration { class_declaration } => {
            assert_eq!(class_declaration.superclass.as_ref().unwrap().name.lexeme, "A");
            assert_eq!(class_declaration.superclass.as_ref().unwrap().distance, None);
            assert_eq!(class_declaration.methods.len(), 2);
            assert_eq!(class_declaration.methods[1].name.lexeme, "n");
            assert_eq!(class_declaration.methods[1].params.len(), 1);
        }
        other => panic!("no class: {:?}", other),
    }
}

#[test]
fn into_function_declaration_gives_the_declaration() {
    let (mut statements, _) = parse("fun f() {} print 1;");
    let print = statements.pop().unwrap();
    let function = statements.pop().unwrap();
    assert!(print.into_function_declaration().is_none());
    assert_eq!(function.into_function_declaration().unwrap().name.lexeme, "f");
}

#[test]
fn for_becomes_while() {
    let (statements, errors) = parse("for (var i = 0; i < 3; i = i + 1) print i;");
    assert_eq!(errors, Vec::<String>::new());
    match &statements[0] {
        Stmt::Block { statements } => {
            assert_eq!(statements.len(), 2);
            assert!(matches!(&statements[0], Stmt::Var { name, .. } if name.lexeme == "i"));
            match &statements[1] {
                Stmt::While { condition, body } => {
                    assert_eq!(text_of(condition), "(< nil 3)");
                    match &**body {
                        Stmt::Block { statements } => {
                            assert_eq!(statements.len(), 2);
                            assert!(matches!(&statements[0], Stmt::Print { .. }));
                            match &statements[1] {
                                Stmt::Expression { expression } => {
                                    assert_eq!(text_of(expression), "(= i (+ nil 1))")
                                }
                                other => panic!("no increment: {:?}", other),
                            }
                        }
                        other => panic!("no block: {:?}", other),
                    }
                }
                other => panic!("no while: {:?}", other),
            }
        }
        other => panic!("no block: {:?}", other),
    }
    let (statements, _) = parse("for (;;) print 1;");
    match &statements[0] {
        Stmt::While { condition, body } => {
            assert_eq!(text_of(condition), "true");
            assert!(matches!(&**body, Stmt::Print { .. }));
        }
        other => panic!("no while: {:?}", other),
    }
    let (statements, _) = parse("for (i = 0;; ) {}");
    assert!(matches!(&statements[0], Stmt::Block { statements } if matches!(&statements[0], Stmt::Expression { .. })));
}

#[test]
fn desugaring_by_parts() {
    let body = Stmt::Print { expression: Expr::Literal(rilox::expr::LiteralExpr::new(Object::Nil)) };
    let condition = Expr::Literal(rilox::expr::LiteralExpr::new(Object::Bool(false)));
    match desugar_for(None, condition, None, body) {
        Stmt::While { condition, body } => {
            assert_eq!(text_of(&condition), "false");
            assert!(matches!(*body, Stmt::Print { .. }));
        }
        other => panic!("no while: {:?}", other),
    }
}

#[test]
fn failures() {
    let failure = |source: &str| {
        let (statements, errors) = parse(source);
        assert_eq!(statements.len(), 0);
        assert_eq!(errors.len(), 1);
        errors[0].clone()
    };
    assert_eq!(failure("print;"), "Parse Error: [line 1] at ';'. Expect expression.");
    assert_eq!(failure("(1"), "Parse Error: [line 1] at end. Expect ')' after expression.");
    assert_eq!(failure("f(1"), "Parse Error: [line 1] at end. Expect ')' after arguments.");
    assert_eq!(failure("a."), "Parse Error: [line 1] at end. Expect property name after '.'.");
    assert_eq!(failure("super;"), "Parse Error: [line 1] at ';'. Expect '.' after 'super'.");
    assert_eq!(failure("super.;"), "Parse Error: [line 1] at ';'. Expect superclass method name.");
    assert_eq!(failure("var 1;"), "Parse Error: [line 1] at '1'. Expect variable name.");
    assert_eq!(failure("var a"), "Parse Error: [line 1] at end. Expect ';' after variable declaration.");
    assert_eq!(failure("return 1"), "Parse Error: [line 1] at end. Expect ';' after return value.");
    assert_eq!(failure("if 1"), "Parse Error: [line 1] at '1'. Expect '(' after 'if'.");
    assert_eq!(failure("if (1 print"), "Parse Error: [line 1] at 'print'. Expect ')' after if condition.");
    assert_eq!(failure("while 1"), "Parse Error: [line 1] at '1'. Expect '(' after 'while'.");
    assert_eq!(failure("while (1;"), "Parse Error: [line 1] at ';'. Expect ')' after condition.");
    assert_eq!(failure("for 1"), "Parse Error: [line 1] at '1'. Expect '(' after 'for'.");
    assert_eq!(failure("for (;1 1"), "Parse Error: [line 1] at '1'. Expect ';' after loop condition.");
    assert_eq!(failure("for (;;1 1"), "Parse Error: [line 1] at '1'. Expect ')' after for clauses.");
    assert_eq!(failure("{ 1;"), "Parse Error: [line 1] at end. Expect '}' after block.");
    assert_eq!(failure("fun 1"), "Parse Error: [line 1] at '1'. Expect function name.");
    assert_eq!(failure("fun f 1"), "Parse Error: [line 1] at '1'. Expect '(' after function name.");
    assert_eq!(failure("fun f(1"), "Parse Error: [line 1] at '1'. Expect parameter name.");
    assert_eq!(failure("fun f(a 1"), "Parse Error: [line 1] at '1'. Expect ')' after parameters.");
    assert_eq!(failure("fun f() 1"), "Parse Error: [line 1] at '1'. Expect '{' before function body.");
    assert_eq!(failure("class 1"), "Parse Error: [line 1] at '1'. Expect class name.");
    assert_eq!(failure("class A < 1"), "Parse Error: [line 1] at '1'. Expect superclass name.");
    assert_eq!(failure("class A 1"), "Parse Error: [line 1] at '1'. Expect '{' before class body.");
    assert_eq!(failure("class A { 1"), "Parse Error: [line 1] at '1'. Expect method name.");
    assert_eq!(failure("class A { m 1"), "Parse Error: [line 1] at '1'. Expect '(' after method name.");
    assert_eq!(failure("class A { m() 1"), "Parse Error: [line 1] at '1'. Expect '{' before method body.");
    assert_eq!(failure("class A { m() {}"), "Parse Error: [line 1] at end. Expect '}' after class body.");
}

#[test]
fn an_invalid_target_is_reported_and_the_statement_kept() {
    let (statements, errors) = parse("1 + 2 = 3; print 4;");
    assert_eq!(errors, vec!["Parse Error: [line 1] at '='. Invalid assignment target.".to_string()]);
    assert_eq!(statements.len(), 2);
    match &statements[0] {
        Stmt::Expression { expression } => assert_eq!(text_of(expression), "(+ 1 2)"),
        other => panic!("no expression: {:?}", other),
    }
}

#[test]
fn the_parser_goes_on_behind_a_failure() {
    let (statements, errors) = parse("var a = ; print 1; print ) 2 3; fun f() {} 4 5 class A {}");
    assert_eq!(
        errors,
        vec![
            "Parse Error: [line 1] at ';'. Expect expression.".to_string(),
            "Parse Error: [line 1] at ')'. Expect expression.".to_string(),
            "Parse Error: [line 1] at '5'. Expect ';' after value.".to_string(),
        ]
    );
    assert_eq!(statements.len(), 3);
    assert!(matches!(&statements[0], Stmt::Print { .. }));
    assert!(matches!(&statements[1], Stmt::FunctionDeclaration { .. }));
    assert!(matches!(&statements[2], Stmt::ClassDeclaration { .. }));
}

#[test]
fn diagnostics_name_the_token() {
    let end = Token::new(TokenType::Eof, String::new(), Object::Nil, 4);
    assert_eq!(error_at(&end, "m").to_text(), "Parse Error: [line 4] at end. m");
    let plus = Token::new(TokenType::Plus, "+".to_string(), Object::Nil, 5);
    assert_eq!(error_at(&plus, "m").to_text(), "Parse Error: [line 5] at '+'. m");
}

#[test]
fn an_empty_program() {
    let (statements, errors) = parse("");
    assert_eq!(statements.len(), 0);
    assert_eq!(errors.len(), 0);
}

fn function_with(count: usize) -> String {
    let names: Vec<String> = (0..count).map(|i| format!("a{}", i)).collect();
    format!("fun f({}) {{}}", names.join(", "))
}

#[test]
fn a_function_declaration_is_read_whole_beyond_the_limit() {
    for (count, reported) in [(1usize, 0usize), (255, 0), (256, 1), (300, 45)] {
        let tokens = tokens_of(&function_with(count));
        let mut parser = Parser::new(&tokens);
        parser.current = 1;
        match parser.function_declaration("function") {
            Ok(Stmt::FunctionDeclaration { function_declaration }) => {
                assert_eq!(function_declaration.name.lexeme, "f");
                assert_eq!(function_declaration.params.len(), count);
                for (k, param) in function_declaration.params.iter().enumerate() {
                    assert_eq!(param.lexeme, format!("a{}", k));
                }
                assert_eq!(function_declaration.body.len(), 0);
            }
            other => panic!("no function: {:?}", other),
        }
        assert_eq!(parser.current, tokens.len() - 1);
        assert_eq!(parser.errors.len(), reported);
        for (j, error) in parser.errors.iter().enumerate() {
            assert_eq!(
                error.to_text(),
                format!("Parse Error: [line 1] at 'a{}'. Can't have more than 255 parameters.", 255 + j)
            );
        }
    }
}

#[test]
fn a_call_is_read_whole_beyond_the_limit() {
    for (count, reported) in [(0usize, 0usize), (1, 0), (255, 0), (256, 1), (258, 3)] {
        let arguments: Vec<String> = (0..count).map(|i| i.to_string()).collect();
        let tokens = tokens_of(&format!("f({});", arguments.join(", ")));
        let mut parser = Parser::new(&tokens);
        parser.current = 2;
        let callee = Expr::Literal(rilox::expr::LiteralExpr::new(Object::Nil));
        match parser.finish_call(callee) {
            Ok(Expr::Call(call)) => {
                assert_eq!(call.arguments.len(), count);
                for (k, argument) in call.arguments.iter().enumerate() {
                    assert_eq!(text_of(argument), k.to_string());
                }
                assert_eq!(call.paren.token_type, TokenType::RightParen);
            }
            other => panic!("no call: {:?}", other),
        }
        assert_eq!(parser.current, tokens.len() - 2);
        assert_eq!(parser.errors.len(), reported);
        for (j, error) in parser.errors.iter().enumerate() {
            assert_eq!(
                error.to_text(),
                format!("Parse Error: [line 1] at '{}'. Can't have more than 255 arguments.", 255 + j)
            );
        }
    }
    let tokens = tokens_of("f(g(1), , 2);");
    let mut parser = Parser::new(&tokens);
    parser.current = 2;
    let callee = Expr::Literal(rilox::expr::LiteralExpr::new(Object::Nil));
    assert_eq!(
        parser.finish_call(callee).unwrap_err().to_text(),
        "Parse Error: [line 1] at ','. Expect expression."
    );
}
