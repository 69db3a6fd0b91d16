//! Whole programs, from source text to what they print.
use rilox::err::LoxErr;
use rilox::interpreter::{Action, Event, Interpreter};
use rilox::lox::prepare;
use rilox::object::Object;
use rilox::parser::Parser;
use rilox::scanner::Scanner;
use rilox::stmt::Stmt;
use rilox::token::Token;
use rilox::token_type::TokenType;

/// What a run gave: the printed lines, the diagnostics before the run, and the
/// runtime failure if there was one.
struct Outcome {
    printed: Vec<String>,
    diagnostics: Vec<String>,
    failure: Option<String>,
    ran: bool,
}

fn tokens_of(source: &str) -> (Vec<Token>, Option<LoxErr>) {
    let mut scanner = Scanner::new(source);
    let scanned = scanner.scan_tokens();
    let mut tokens = scanner.tokens;
    for token in tokens.iter_mut() {
        if token.token_type == TokenType::Number {
            token.literal = Object::Number(token.lexeme.parse::<f64>().unwrap().to_bits());
        }
    }
    (tokens, scanned.err())
}

fn arithmetic(operator: TokenType, left: u64, right: u64) -> u64 {
    let l = f64::from_bits(left);
    let r = f64::from_bits(right);
    let value = match operator {
        TokenType::Plus => l + r,
        TokenType::Minus => l - r,
        TokenType::Star => l * r,
        TokenType::Slash => l / r,
        _ => unreachable!(),
    };
    value.to_bits()
}

fn drive(interpreter: &mut Interpreter, outcome: &mut Outcome) {
    let mut event = Event::Resume;
    let mut steps: u64 = 0;
    loop {
        steps += 1;
        assert!(steps < 10_000_000);
        match interpreter.step(event) {
            Action::Continue => event = Event::Resume,
            Action::Print(line) => {
                outcome.printed.push(line);
                event = Event::Resume;
            }
            Action::Arithmetic { operator, left, right } => {
                event = Event::Number(arithmetic(operator, left, right));
            }
            Action::FormatNumber(bits) => {
                event = Event::Text(format!("{}", f64::from_bits(bits)));
            }
            Action::ReadClock => event = Event::Number(1234.5f64.to_bits()),
            Action::Finished => break,
            Action::Failed(error) => {
                outcome.failure = Some(error.to_text());
                break;
            }
        }
    }
}

fn run(source: &str) -> Outcome {
    let mut outcome =
        Outcome { printed: Vec::new(), diagnostics: Vec::new(), failure: None, ran: false };
    let (tokens, scan_error) = tokens_of(source);
    let scanned = match scan_error {
        Some(error) => Err(error),
        None => Ok(()),
    };
    let prepared = prepare(&tokens, scanned);
    for diagnostic in prepared.diagnostics.iter() {
        outcome.diagnostics.push(diagnostic.to_text());
    }
    assert_eq!(prepared.runnable, prepared.diagnostics.is_empty());
    if !prepared.runnable {
        return outcome;
    }
    let statements: Vec<Stmt> = prepared.statements;
    let mut interpreter = Interpreter::new();
    interpreter.interpret(&statements);
    outcome.ran = true;
    drive(&mut interpreter, &mut outcome);
    assert_eq!(interpreter.had_runtime_error, outcome.failure.is_some());
    outcome
}

fn prints(source: &str) -> Vec<String> {
    let outcome = run(source);
    assert_eq!(outcome.diagnostics, Vec::<String>::new());
    assert_eq!(outcome.failure, None);
    outcome.printed
}

fn fails(source: &str) -> String {
    let outcome = run(source);
    assert_eq!(outcome.diagnostics, Vec::<String>::new());
    outcome.failure.unwrap()
}

fn lines(expected: &[&str]) -> Vec<String> {
    expected.iter().map(|s| s.to_string()).collect()
}

#[test]
fn test_block() {
    let code = r#"var a = "global a";
var b = "global b";
var c = "global c";
{
var a = "outer a";
var b = "outer b";
{
    var a = "inner a";
    print a;
    print b;
    print c;
}
print a;
print b;
print c;
}
print a;
print b;
print c;
        "#;
    assert_eq!(
        prints(code),
        lines(&[
            "inner a", "outer b", "global c", "outer a", "outer b", "global c", "global a",
            "global b", "global c",
        ])
    );
}

#[test]
fn closure_captures_its_variable() {
    let code = "fun makeCounter() { var i = 0; fun c() { i = i + 1; return i; } return c; }\n\
                var c = makeCounter(); print c(); print c(); print c();";
    assert_eq!(prints(code), lines(&["1", "2", "3"]));
}

#[test]
fn shadowing_does_not_reach_into_a_closure() {
    let code = "var a = \"global\";\n{ fun show() { print a; } show(); var a = \"local\"; show(); }";
    assert_eq!(prints(code), lines(&["global", "global"]));
}

#[test]
fn super_calls_the_method_of_the_superclass() {
    let code = "class A { hello() { print \"A\"; } }\n\
                class B < A { hello() { super.hello(); print \"B\"; } }\n\
                B().hello();";
    assert_eq!(prints(code), lines(&["A", "B"]));
}

#[test]
fn initializer_sets_fields() {
    let code = "class Point { init(x,y) { this.x = x; this.y = y; } }\n\
                var p = Point(3,4); print p.x; print p.y;";
    assert_eq!(prints(code), lines(&["3", "4"]));
}

#[test]
fn for_is_a_while() {
    let code = "var s = 0; for (var i = 1; i <= 3; i = i + 1) s = s + i; print s;";
    assert_eq!(prints(code), lines(&["6"]));
}

#[test]
fn logical_operators_give_an_operand() {
    assert_eq!(prints("print nil or \"x\"; print \"a\" and 2;"), lines(&["x", "2"]));
    assert_eq!(prints("print false and 1; print 1 or 2; print nil and 1;"), lines(&["false", "1", "nil"]));
}

#[test]
fn de_morgan_on_booleans() {
    for a in ["true", "false"] {
        for b in ["true", "false"] {
            let code = format!(
                "print !({a} or {b}) == (!{a} and !{b}); print !({a} and {b}) == (!{a} or !{b});"
            );
            assert_eq!(prints(&code), lines(&["true", "true"]));
        }
    }
}

#[test]
fn strings_are_joined_by_plus() {
    assert_eq!(prints("print \"a\" + \"b\";"), lines(&["ab"]));
}

#[test]
fn string_plus_number_fails() {
    assert_eq!(
        fails("print \"a\" + 1;"),
        "Runtime Error: [line 1] Operands must be two numbers or two strings."
    );
}

#[test]
fn division_by_zero_fails() {
    let message = fails("print 1/0;");
    assert!(message.contains("Attempt to divide"));
    assert_eq!(message, "Runtime Error: [line 1] Attempt to divide `1` by zero.");
}

#[test]
fn function_without_return_gives_nil() {
    assert_eq!(prints("fun f() { 1 + 2; } print f();"), lines(&["nil"]));
}

#[test]
fn initializer_with_bare_return_gives_the_instance() {
    let code = "class A { init() { this.x = 7; return; } }\nvar a = A(); print a.x; print a.init().x; print a;";
    assert_eq!(prints(code), lines(&["7", "7", "<A instance>"]));
}

#[test]
fn literals_print_as_they_are_spelled() {
    assert_eq!(
        prints("print nil; print true; print false; print 123; print 45.67; print 0; print \"hi\";"),
        lines(&["nil", "true", "false", "123", "45.67", "0", "hi"])
    );
}

#[test]
fn values_print_their_kind() {
    let code = "fun f() {} class C {} print f; print C; print C(); print clock;";
    assert_eq!(prints(code), lines(&["<fn f>", "<class C>", "<C instance>", "<native fn clock"]));
}

#[test]
fn assignment_then_read() {
    assert_eq!(prints("var x = 1; x = 2 * 21; print x; { var y; y = x = 5; print y; print x; }"), lines(&["42", "5", "5"]));
}

#[test]
fn arithmetic_and_comparison() {
    assert_eq!(
        prints("print 1 + 2 * 3 - 4 / 2; print -(3 - 5); print 1 < 2; print 2 <= 2; print 3 > 4; print 4 >= 5;"),
        lines(&["5", "2", "true", "true", "false", "false"])
    );
    assert_eq!(
        prints("print 1 == 1; print 1 != 1; print nil == nil; print nil == false; print \"a\" == \"a\"; print 1 == \"1\"; print 0 == -0;"),
        lines(&["true", "false", "true", "false", "true", "false", "true"])
    );
}

#[test]
fn truthiness() {
    assert_eq!(
        prints("if (0) print \"zero\"; if (\"\") print \"empty\"; if (nil) print 1; else print \"nil\"; print !nil; print !0;"),
        lines(&["zero", "empty", "nil", "true", "false"])
    );
}

#[test]
fn while_and_recursion() {
    let code = "fun fib(n) { if (n < 2) return n; return fib(n - 1) + fib(n - 2); }\n\
                var i = 0; while (i < 8) { print fib(i); i = i + 1; }";
    assert_eq!(prints(code), lines(&["0", "1", "1", "2", "3", "5", "8", "13"]));
}

#[test]
fn return_unwinds_through_blocks_and_loops() {
    let code = "fun find() { var i = 0; while (true) { { if (i == 3) { return i; } } i = i + 1; } }\n\
                var a = \"outside\"; print find(); print a;";
    assert_eq!(prints(code), lines(&["3", "outside"]));
}

#[test]
fn methods_fields_and_inheritance() {
    let code = "class A { init(n) { this.n = n; } get() { return this.n; } twice() { return this.get() * 2; } }\n\
                class B < A { get() { return super.get() + 1; } }\n\
                var a = A(1); var b = B(10); print a.twice(); print b.twice();\n\
                var m = b.get; b.n = 20; print m(); a.get = 5; print a.get;";
    assert_eq!(prints(code), lines(&["2", "22", "21", "5"]));
}

#[test]
fn bound_methods_are_made_anew() {
    assert_eq!(
        prints("class A { m() {} } var a = A(); var m = a.m; print m == m; print a.m == a.m; print a == a; print A == A;"),
        lines(&["true", "false", "true", "true"])
    );
}

#[test]
fn clock_is_read_from_the_host() {
    assert_eq!(prints("print clock();"), lines(&["1234.5"]));
}

#[test]
fn undefined_variable_fails() {
    assert_eq!(fails("print x;"), "Runtime Error: [line 1] Undefined variable 'x'.");
    assert_eq!(fails("x = 1;"), "Runtime Error: [line 1] Undefined variable 'x'.");
}

#[test]
fn failing_operands() {
    assert_eq!(fails("print -\"a\";"), "Runtime Error: [line 1] Operand must be a number.");
    assert_eq!(fails("print 1 < \"a\";"), "Runtime Error: [line 1] Operand(s) must be a number.");
    assert_eq!(fails("\n\nprint nil * 2;"), "Runtime Error: [line 3] Operand(s) must be a number.");
}

#[test]
fn failing_calls() {
    assert_eq!(fails("\"f\"();"), "Runtime Error: [line 1] Can only call functions and classes.");
    assert_eq!(fails("fun f(a) {} f();"), "Runtime Error: [line 1] Expected 1 arguments but got 0.");
    assert_eq!(fails("fun f() {} f(1, 2);"), "Runtime Error: [line 1] Expected 0 arguments but got 2.");
    assert_eq!(fails("class A { init(a) {} } A();"), "Runtime Error: [line 1] Expected 1 arguments but got 0.");
    assert_eq!(fails("clock(1);"), "Runtime Error: [line 1] Expected 0 arguments but got 1.");
}

#[test]
fn failing_properties() {
    assert_eq!(fails("var a = 1; print a.b;"), "Runtime Error: [line 1] Only instances have properties.");
    assert_eq!(fails("var a = 1; a.b = 2;"), "Runtime Error: [line 1] Only instances have fields.");
    assert_eq!(fails("class A {} print A().b;"), "Runtime Error: [line 1] Undefined property 'b'.");
    assert_eq!(
        fails("class A {} class B < A { m() { super.x(); } } B().m();"),
        "Runtime Error: [line 1] Undefined property 'x'."
    );
    assert_eq!(fails("var A = 1; class B < A {}"), "Runtime Error: [line 1] Superclass must be a class.");
}

#[test]
fn a_failure_ends_the_program() {
    let outcome = run("print 1; print x; print 2;");
    assert_eq!(outcome.printed, lines(&["1"]));
    assert_eq!(outcome.failure, Some("Runtime Error: [line 1] Undefined variable 'x'.".to_string()));
}

#[test]
fn redeclaring_a_local_is_reported() {
    let outcome = run("{ var a = 1; var a = 2; }");
    assert_eq!(
        outcome.diagnostics,
        lines(&["Resolve Error: [line 1] Already a variable with this name in this scope."])
    );
    assert!(!outcome.ran);
    assert_eq!(prints("var a = 1; var a = 2; print a;"), lines(&["2"]));
}

#[test]
fn static_rules() {
    let message = |source: &str| run(source).diagnostics;
    assert_eq!(message("return 1;"), lines(&["Resolve Error: [line 1] Can't return from top-level code."]));
    assert_eq!(message("print this;"), lines(&["Resolve Error: [line 1] Can't use 'this' outside of a class."]));
    assert_eq!(message("print super.x;"), lines(&["Resolve Error: [line 1] Can't use 'super' outside of a class."]));
    assert_eq!(
        message("class A { m() { super.m(); } }"),
        lines(&["Resolve Error: [line 1] Can't use 'super' in a class with no superclass."])
    );
    assert_eq!(message("class A < A {}"), lines(&["Resolve Error: [line 1] A class can't inherit from itself."]));
    assert_eq!(
        message("{ var a = a; }"),
        lines(&["Resolve Error: [line 1] Can't read local variable in its own initializer."])
    );
    assert_eq!(
        message("class A { init() { return 1; } }"),
        lines(&["Resolve Error: [line 1] Can't return a value from an initializer."])
    );
    assert_eq!(
        message("fun f(a, a) {}"),
        lines(&["Resolve Error: [line 1] Already a variable with this name in this scope."])
    );
}

#[test]
fn parse_errors_are_reported_and_parsing_goes_on() {
    let outcome = run("var = 1;\nprint 2\nprint 3;\nprint (4;\nvar ok = 1;");
    assert_eq!(
        outcome.diagnostics,
        lines(&[
            "Parse Error: [line 1] at '='. Expect variable name.",
            "Parse Error: [line 3] at 'print'. Expect ';' after value.",
            "Parse Error: [line 4] at ';'. Expect ')' after expression.",
        ])
    );
    assert!(!outcome.ran);
    assert_eq!(run("print 1").diagnostics, lines(&["Parse Error: [line 1] at end. Expect ';' after value."]));
    assert_eq!(run("1 = 2;").diagnostics, lines(&["Parse Error: [line 1] at '='. Invalid assignment target."]));
}

#[test]
fn scan_errors_are_reported() {
    let outcome = run("print 1; @");
    assert_eq!(outcome.diagnostics, lines(&["Scan Error: [line 1] Unexpected character."]));
    let (_, error) = tokens_of("@ #\n\"abc");
    assert_eq!(
        error.unwrap().to_text(),
        "Scan Error: [line 1] Unexpected character.\nScan Error: [line 1] Unexpected character.\nScan Error: [line 2] Unterminated string.\n"
    );
}

fn call_with(count: usize) -> String {
    let arguments: Vec<String> = (0..count).map(|i| i.to_string()).collect();
    format!("f({});", arguments.join(", "))
}

#[test]
fn up_to_255_arguments_are_accepted() {
    let (tokens, _) = tokens_of(&call_with(255));
    let mut parser = Parser::new(&tokens);
    let statements = parser.parse();
    assert_eq!(statements.len(), 1);
    assert!(parser.errors.is_empty());
}

#[test]
fn the_256th_argument_is_reported_and_parsing_goes_on() {
    let (tokens, _) = tokens_of(&call_with(256));
    let mut parser = Parser::new(&tokens);
    let statements = parser.parse();
    assert_eq!(statements.len(), 1);
    assert_eq!(parser.errors.len(), 1);
    assert_eq!(
        parser.errors[0].to_text(),
        "Parse Error: [line 1] at '255'. Can't have more than 255 arguments."
    );
}

#[test]
fn the_256th_parameter_is_reported_and_parsing_goes_on() {
    let names: Vec<String> = (0..256).map(|i| format!("a{}", i)).collect();
    let source = format!("fun f({}) {{}}", names.join(", "));
    let (tokens, _) = tokens_of(&source);
    let mut parser = Parser::new(&tokens);
    let statements = parser.parse();
    assert_eq!(statements.len(), 1);
    assert_eq!(parser.errors.len(), 1);
    assert_eq!(
        parser.errors[0].to_text(),
        "Parse Error: [line 1] at 'a255'. Can't have more than 255 parameters."
    );
    let names: Vec<String> = (0..255).map(|i| format!("a{}", i)).collect();
    let source = format!("fun f({}) {{}}", names.join(", "));
    let (tokens, _) = tokens_of(&source);
    let mut parser = Parser::new(&tokens);
    parser.parse();
    assert!(parser.errors.is_empty());
}

#[test]
fn classes_in_blocks_and_closures_in_loops() {
    let code = "{ class A { m() { return 1; } } class B < A { m() { return super.m() + 1; } } print B().m(); }\n\
                var f; var g; var i = 0;\n\
                while (i < 2) { var j = i; fun show() { return j; } if (i == 0) f = show; else g = show; i = i + 1; }\n\
                print f(); print g();";
    assert_eq!(prints(code), lines(&["2", "0", "1"]));
}

#[test]
fn methods_see_the_class_and_the_globals() {
    let code = "var count = 0;\n\
                class Counter { init() { this.n = 0; } add() { this.n = this.n + 1; count = count + 1; return this; } make() { return Counter(); } }\n\
                var c = Counter(); c.add().add(); print c.n; print c.make().add().n; print count;";
    assert_eq!(prints(code), lines(&["2", "1", "3"]));
}

#[test]
fn an_expression_without_effects_gives_one_value_each_time() {
    let code = "var a = 1; var b = \"s\";\n\
                print (a < 2 and !nil) == (a < 2 and !nil); print a < 2 and b; print a < 2 and b;\n\
                print -a == -a; print (b or a) == (b or a);";
    assert_eq!(prints(code), lines(&["true", "s", "s", "true", "true"]));
}

#[test]
fn a_stage_that_fails_keeps_the_later_ones_from_running() {
    let scanned = run("print 1; @");
    assert_eq!(scanned.diagnostics, lines(&["Scan Error: [line 1] Unexpected character."]));
    assert!(!scanned.ran);
    assert_eq!(scanned.printed, Vec::<String>::new());
    let parsed = run("print 1; print; { var a; var a; }");
    assert_eq!(parsed.diagnostics, lines(&["Parse Error: [line 1] at ';'. Expect expression."]));
    assert!(!parsed.ran);
    let resolved = run("print 1; { var a; var a; }");
    assert_eq!(
        resolved.diagnostics,
        lines(&["Resolve Error: [line 1] Already a variable with this name in this scope."])
    );
    assert!(!resolved.ran);
    let both = run("@ { var a; var a; }");
    assert_eq!(
        both.diagnostics,
        lines(&[
            "Scan Error: [line 1] Unexpected character.",
            "Resolve Error: [line 1] Already a variable with this name in this scope.",
        ])
    );
    let fine = run("print 1;");
    assert!(fine.ran);
    assert_eq!(fine.printed, lines(&["1"]));
}

#[test]
fn comments_are_skipped() {
    assert_eq!(prints("// nothing\nprint 1; /* two\nlines */ print 2; // end"), lines(&["1", "2"]));
    let (_, error) = tokens_of("/* open");
    assert_eq!(error.unwrap().to_text(), "Scan Error: [line 1] Unterminated block comment.");
}
