//! Source text to tokens.
use rilox::object::Object;
use rilox::scanner::{is_alpha, is_digit, word_kind, Scanner};
use rilox::token::Token;
use rilox::token_type::TokenType;

fn scan(source: &str) -> (Vec<Token>, Option<String>) {
    let mut scanner = Scanner::new(source);
    let result = scanner.scan_tokens();
    (scanner.tokens, result.err().map(|e| e.to_text()))
}

fn kinds(source: &str) -> Vec<TokenType> {
    scan(source).0.iter().map(|t| t.token_type).collect()
}

#[test]
fn punctuation_and_operators() {
    assert_eq!(
        kinds("(){},.-+;*/ ! != = == > >= < <="),
        vec![
            TokenType::LeftParen,
            TokenType::RightParen,
            TokenType::LeftBrace,
            TokenType::RightBrace,
            TokenType::Comma,
            TokenType::Dot,
            TokenType::Minus,
            TokenType::Plus,
            TokenType::Semicolon,
            TokenType::Star,
            TokenType::Slash,
            TokenType::Bang,
            TokenType::BangEqual,
            TokenType::Equal,
            TokenType::EqualEqual,
            TokenType::Greater,
            TokenType::GreaterEqual,
            TokenType::Less,
            TokenType::LessEqual,
            TokenType::Eof,
        ]
    );
    assert_eq!(kinds("!==="), vec![TokenType::BangEqual, TokenType::EqualEqual, TokenType::Eof]);
}

#[test]
fn keywords_and_identifiers() {
    assert_eq!(
        kinds("and class else false for fun if nil or print return super this true var while"),
        vec![
            TokenType::And,
            TokenType::Class,
            TokenType::Else,
            TokenType::False,
            TokenType::For,
            TokenType::Fun,
            TokenType::If,
            TokenType::Nil,
            TokenType::Or,
            TokenType::Print,
            TokenType::Return,
            TokenType::Super,
            TokenType::This,
            TokenType::True,
            TokenType::Var,
            TokenType::While,
            TokenType::Eof,
        ]
    );
    assert_eq!(
        kinds("andy _x x1 For classy"),
        vec![
            TokenType::Identifier,
            TokenType::Identifier,
            TokenType::Identifier,
            TokenType::Identifier,
            TokenType::Identifier,
            TokenType::Eof
        ]
    );
    assert_eq!(word_kind(&"while".to_string()), TokenType::While);
    assert_eq!(word_kind(&"whale".to_string()), TokenType::Identifier);
    assert!(is_alpha('_') && is_alpha('a') && is_alpha('Z') && !is_alpha('1') && !is_alpha('-'));
    assert!(is_digit('0') && is_digit('9') && !is_digit('a'));
}

#[test]
fn lexemes_literals_and_lines() {
    let (tokens, error) = scan("var a = \"x\ny\";\ntrue false 12.5 7. foo");
    assert_eq!(error, None);
    let lexemes: Vec<&str> = tokens.iter().map(|t| t.lexeme.as_str()).collect();
    assert_eq!(lexemes, vec!["var", "a", "=", "\"x\ny\"", ";", "true", "false", "12.5", "7", ".", "foo", ""]);
    let lines: Vec<usize> = tokens.iter().map(|t| t.line).collect();
    assert_eq!(lines, vec![1, 1, 1, 2, 2, 3, 3, 3, 3, 3, 3, 3]);
    assert_eq!(tokens[3].token_type, TokenType::String);
    assert_eq!(tokens[3].literal, Object::String("x\ny".to_string()));
    assert_eq!(tokens[5].literal, Object::Bool(true));
    assert_eq!(tokens[6].literal, Object::Bool(false));
    assert_eq!(tokens[7].token_type, TokenType::Number);
    assert_eq!(tokens[7].literal, Object::Nil);
    assert_eq!(tokens[0].literal, Object::Nil);
    assert_eq!(tokens[11].token_type, TokenType::Eof);
}

#[test]
fn numbers_get_their_values_from_outside() {
    let mut scanner = Scanner::new("1 + 2.5 * x - 30");
    assert!(scanner.scan_tokens().is_ok());
    assert_eq!(scanner.number_lexemes(), vec!["1".to_string(), "2.5".to_string(), "30".to_string()]);
    scanner.set_numbers(&vec![1f64.to_bits(), 2.5f64.to_bits()]);
    let literals: Vec<Object> = scanner.tokens.iter().map(|t| t.literal.clone()).collect();
    assert_eq!(
        literals,
        vec![
            Object::Number(1f64.to_bits()),
            Object::Nil,
            Object::Number(2.5f64.to_bits()),
            Object::Nil,
            Object::Nil,
            Object::Nil,
            Object::Nil,
            Object::Nil,
        ]
    );
}

#[test]
fn comments() {
    assert_eq!(kinds("1 // 2 3\n4"), vec![TokenType::Number, TokenType::Number, TokenType::Eof]);
    assert_eq!(kinds("1 /* 2 \n * / 3 */ 4"), vec![TokenType::Number, TokenType::Number, TokenType::Eof]);
    assert_eq!(kinds("/**/1"), vec![TokenType::Number, TokenType::Eof]);
    let (tokens, error) = scan("1 /* a\nb\n*/ 2");
    assert_eq!(error, None);
    assert_eq!(tokens[1].line, 3);
}

#[test]
fn failures_do_not_stop_the_scan() {
    let (tokens, error) = scan("1 @ 2");
    assert_eq!(error, Some("Scan Error: [line 1] Unexpected character.".to_string()));
    assert_eq!(tokens.len(), 3);
    assert_eq!(tokens[2].token_type, TokenType::Eof);
    let (tokens, error) = scan("\n\"abc\ndef");
    assert_eq!(error, Some("Scan Error: [line 3] Unterminated string.".to_string()));
    assert_eq!(tokens.len(), 1);
    let (tokens, error) = scan("1 /* 2\n3");
    assert_eq!(error, Some("Scan Error: [line 2] Unterminated block comment.".to_string()));
    assert_eq!(tokens.len(), 2);
    let (_, error) = scan("@\n#");
    assert_eq!(
        error,
        Some("Scan Error: [line 1] Unexpected character.\nScan Error: [line 2] Unexpected character.\n".to_string())
    );
}

#[test]
fn an_empty_source_gives_the_end_of_file() {
    let (tokens, error) = scan("");
    assert_eq!(error, None);
    assert_eq!(tokens.len(), 1);
    assert_eq!(tokens[0].token_type, TokenType::Eof);
    assert_eq!(tokens[0].line, 1);
    assert_eq!(tokens[0].lexeme, "");
}
