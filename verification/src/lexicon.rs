//! The lexical grammar of Lox, written as functions from the characters of a
//! source text and a position in it to the token that begins there.
use vstd::prelude::*;
use crate::err::LoxErrView;
use crate::object::ObjectView;
use crate::token::TokenView;
use crate::token_type::TokenType;

verus! {

pub open spec fn is_digit(c: char) -> bool {
    '0' <= c <= '9'
}

pub open spec fn is_alpha(c: char) -> bool {
    ('a' <= c <= 'z') || ('A' <= c <= 'Z') || c == '_'
}

pub open spec fn is_word(c: char) -> bool {
    is_alpha(c) || is_digit(c)
}

/// The character at `pos`, or the null character behind the end.
pub open spec fn peek(src: Seq<char>, pos: int) -> char {
    if 0 <= pos < src.len() {
        src[pos]
    } else {
        '\0'
    }
}

/// The line number behind the character `c`.
pub open spec fn bump(line: usize, c: char) -> usize {
    if c == '\n' && line < usize::MAX {
        (line + 1) as usize
    } else {
        line
    }
}

/// The line number at `to`, given that at `from`.
pub open spec fn lines(src: Seq<char>, line: usize, from: int, to: int) -> usize
    decreases to - from,
{
    if from >= to || !(0 <= from < src.len()) {
        line
    } else {
        lines(src, bump(line, src[from]), from + 1, to)
    }
}

/// The end of the digits that begin at `pos`.
pub open spec fn digits_end(src: Seq<char>, pos: int) -> int
    decreases src.len() - pos,
{
    if 0 <= pos < src.len() && is_digit(src[pos]) {
        digits_end(src, pos + 1)
    } else {
        pos
    }
}

/// The end of the letters, digits and underscores that begin at `pos`.
pub open spec fn word_end(src: Seq<char>, pos: int) -> int
    decreases src.len() - pos,
{
    if 0 <= pos < src.len() && is_word(src[pos]) {
        word_end(src, pos + 1)
    } else {
        pos
    }
}

/// The position of the next line feed from `pos` on, or the end.
pub open spec fn line_end(src: Seq<char>, pos: int) -> int
    decreases src.len() - pos,
{
    if 0 <= pos < src.len() && src[pos] != '\n' {
        line_end(src, pos + 1)
    } else {
        pos
    }
}

/// The position of the next double quote from `pos` on, or the end.
pub open spec fn quote_end(src: Seq<char>, pos: int) -> int
    decreases src.len() - pos,
{
    if 0 <= pos < src.len() && src[pos] != '"' {
        quote_end(src, pos + 1)
    } else {
        pos
    }
}

/// Is there a `*/` from `pos` on?
pub open spec fn comment_closed(src: Seq<char>, pos: int) -> bool
    decreases src.len() - pos,
{
    if !(0 <= pos < src.len()) {
        false
    } else if src[pos] == '*' && peek(src, pos + 1) == '/' {
        true
    } else {
        comment_closed(src, pos + 1)
    }
}

/// The position behind the next `*/` from `pos` on, or the end.
pub open spec fn comment_end(src: Seq<char>, pos: int) -> int
    decreases src.len() - pos,
{
    if !(0 <= pos < src.len()) {
        pos
    } else if src[pos] == '*' && peek(src, pos + 1) == '/' {
        pos + 2
    } else {
        comment_end(src, pos + 1)
    }
}

/// The end of the number that begins at `pos`: digits, and, if a dot and a
/// digit follow them, the dot and the digits behind it.
pub open spec fn number_end(src: Seq<char>, pos: int) -> int {
    let whole = digits_end(src, pos);
    if peek(src, whole) == '.' && is_digit(peek(src, whole + 1)) {
        digits_end(src, whole + 1)
    } else {
        whole
    }
}

/// The kind of token that a word is: a keyword, or else an identifier.
pub open spec fn word_kind(text: Seq<char>) -> TokenType {
    if text == "and"@ {
        TokenType::And
    } else if text == "class"@ {
        TokenType::Class
    } else if text == "else"@ {
        TokenType::Else
    } else if text == "false"@ {
        TokenType::False
    } else if text == "for"@ {
        TokenType::For
    } else if text == "fun"@ {
        TokenType::Fun
    } else if text == "if"@ {
        TokenType::If
    } else if text == "nil"@ {
        TokenType::Nil
    } else if text == "or"@ {
        TokenType::Or
    } else if text == "print"@ {
        TokenType::Print
    } else if text == "return"@ {
        TokenType::Return
    } else if text == "super"@ {
        TokenType::Super
    } else if text == "this"@ {
        TokenType::This
    } else if text == "true"@ {
        TokenType::True
    } else if text == "var"@ {
        TokenType::Var
    } else if text == "while"@ {
        TokenType::While
    } else {
        TokenType::Identifier
    }
}

/// The value that a word carries: `true` and `false` their boolean, every
/// other word nil.
pub open spec fn word_literal(kind: TokenType) -> ObjectView {
    match kind {
        TokenType::True => ObjectView::Bool(true),
        TokenType::False => ObjectView::Bool(false),
        _ => ObjectView::Nil,
    }
}

/// What one step of the scanner gives: where it stands behind the step and
/// on which line, the token that it read, if it read one, and the failure, if
/// there was one.
pub struct Lexeme {
    pub pos: int,
    pub line: usize,
    pub token: Option<TokenView>,
    pub error: Option<LoxErrView>,
}

pub open spec fn scan_error(line: usize, message: Seq<char>) -> LoxErrView {
    LoxErrView::Scan { line, message }
}

/// The token of the kind `kind` that spans `start..end`.
pub open spec fn spanning(
    src: Seq<char>,
    kind: TokenType,
    start: int,
    end: int,
    literal: ObjectView,
    line: usize,
) -> Lexeme {
    Lexeme {
        pos: end,
        line,
        token: Some(
            TokenView { token_type: kind, lexeme: src.subrange(start, end), literal, line },
        ),
        error: None,
    }
}

/// Nothing read: the scanner stands at `pos` on the line `line`.
pub open spec fn skipped(pos: int, line: usize) -> Lexeme {
    Lexeme { pos, line, token: None, error: None }
}

/// An operator of one character, or of two if `=` follows.
pub open spec fn operator(
    src: Seq<char>,
    start: int,
    line: usize,
    single: TokenType,
    double: TokenType,
) -> Lexeme {
    if peek(src, start + 1) == '=' {
        spanning(src, double, start, start + 2, ObjectView::Nil, line)
    } else {
        spanning(src, single, start, start + 1, ObjectView::Nil, line)
    }
}

/// What begins with a slash: a comment to the end of the line, a comment
/// between `/*` and `*/`, or the operator.
pub open spec fn slash(src: Seq<char>, start: int, line: usize) -> Lexeme {
    if peek(src, start + 1) == '/' {
        skipped(line_end(src, start + 2), line)
    } else if peek(src, start + 1) == '*' {
        let end = comment_end(src, start + 2);
        let last = lines(src, line, start + 2, end);
        if comment_closed(src, start + 2) {
            skipped(end, last)
        } else {
            Lexeme {
                pos: end,
                line: last,
                token: None,
                error: Some(scan_error(last, "Unterminated block comment."@)),
            }
        }
    } else {
        spanning(src, TokenType::Slash, start, start + 1, ObjectView::Nil, line)
    }
}

/// A string literal, which begins at `start` with a double quote. It may
/// span lines; its value is the text between the quotes.
pub open spec fn string(src: Seq<char>, start: int, line: usize) -> Lexeme {
    let close = quote_end(src, start + 1);
    let last = lines(src, line, start + 1, close);
    if close >= src.len() {
        Lexeme {
            pos: close,
            line: last,
            token: None,
            error: Some(scan_error(last, "Unterminated string."@)),
        }
    } else {
        spanning(
            src,
            TokenType::String,
            start,
            close + 1,
            ObjectView::String(src.subrange(start + 1, close)),
            last,
        )
    }
}

/// The token, comment or blank that begins at `start`.
pub open spec fn scan_token(src: Seq<char>, start: int, line: usize) -> Lexeme {
    let c = peek(src, start);
    let one = start + 1;
    if c == '(' {
        spanning(src, TokenType::LeftParen, start, one, ObjectView::Nil, line)
    } else if c == ')' {
        spanning(src, TokenType::RightParen, start, one, ObjectView::Nil, line)
    } else if c == '{' {
        spanning(src, TokenType::LeftBrace, start, one, ObjectView::Nil, line)
    } else if c == '}' {
        spanning(src, TokenType::RightBrace, start, one, ObjectView::Nil, line)
    } else if c == ',' {
        spanning(src, TokenType::Comma, start, one, ObjectView::Nil, line)
    } else if c == '.' {
        spanning(src, TokenType::Dot, start, one, ObjectView::Nil, line)
    } else if c == '-' {
        spanning(src, TokenType::Minus, start, one, ObjectView::Nil, line)
    } else if c == '+' {
        spanning(src, TokenType::Plus, start, one, ObjectView::Nil, line)
    } else if c == ';' {
        spanning(src, TokenType::Semicolon, start, one, ObjectView::Nil, line)
    } else if c == '*' {
        spanning(src, TokenType::Star, start, one, ObjectView::Nil, line)
    } else if c == '!' {
        operator(src, start, line, TokenType::Bang, TokenType::BangEqual)
    } else if c == '=' {
        operator(src, start, line, TokenType::Equal, TokenType::EqualEqual)
    } else if c == '<' {
        operator(src, start, line, TokenType::Less, TokenType::LessEqual)
    } else if c == '>' {
        operator(src, start, line, TokenType::Greater, TokenType::GreaterEqual)
    } else if c == '/' {
        slash(src, start, line)
    } else if c == ' ' || c == '\r' || c == '\t' {
        skipped(one, line)
    } else if c == '\n' {
        skipped(one, bump(line, c))
    } else if c == '"' {
        string(src, start, line)
    } else if is_digit(c) {
        spanning(src, TokenType::Number, start, number_end(src, start), ObjectView::Nil, line)
    } else if is_alpha(c) {
        let end = word_end(src, one);
        let kind = word_kind(src.subrange(start, end));
        spanning(src, kind, start, end, word_literal(kind), line)
    } else {
        Lexeme {
            pos: one,
            line,
            token: None,
            error: Some(scan_error(line, "Unexpected character."@)),
        }
    }
}

/// What a scan has gathered.
pub struct Scanned {
    pub pos: int,
    pub line: usize,
    pub tokens: Seq<TokenView>,
    pub errors: Seq<LoxErrView>,
}

/// The scan `s`, with what one step gave added.
pub open spec fn gathered(s: Scanned, step: Lexeme) -> Scanned {
    Scanned {
        pos: step.pos,
        line: step.line,
        tokens: match step.token {
            Some(t) => s.tokens.push(t),
            None => s.tokens,
        },
        errors: match step.error {
            Some(e) => s.errors.push(e),
            None => s.errors,
        },
    }
}

/// The scan from `s` to the end of the text.
pub open spec fn scan_rest(src: Seq<char>, s: Scanned) -> Scanned
    decreases src.len() - s.pos,
{
    if !(0 <= s.pos < src.len()) {
        s
    } else {
        let step = scan_token(src, s.pos, s.line);
        if s.pos < step.pos <= src.len() {
            scan_rest(src, gathered(s, step))
        } else {
            s
        }
    }
}

/// The end-of-file token on the line `line`.
pub open spec fn end_of_file(line: usize) -> TokenView {
    TokenView {
        token_type: TokenType::Eof,
        lexeme: Seq::empty(),
        literal: ObjectView::Nil,
        line,
    }
}

/// The tokens of a source text, ended by an end-of-file token. The token of a
/// number carries nil: its value is put in place by whoever can compute it.
pub open spec fn tokens_of(src: Seq<char>) -> Seq<TokenView> {
    let s = scan_rest(src, Scanned { pos: 0, line: 1, tokens: Seq::empty(), errors: Seq::empty() });
    s.tokens.push(end_of_file(s.line))
}

/// The failures of scanning a source text, in their order.
pub open spec fn errors_of(src: Seq<char>) -> Seq<LoxErrView> {
    scan_rest(
        src,
        Scanned { pos: 0, line: 1, tokens: Seq::empty(), errors: Seq::empty() },
    ).errors
}

/// How a scan ends: well without failures, with the failure if there is one,
/// with all of them together if there are several.
pub open spec fn outcome(errors: Seq<LoxErrView>) -> Result<(), LoxErrView> {
    if errors.len() == 0 {
        Ok(())
    } else if errors.len() == 1 {
        Err(errors[0])
    } else {
        Err(LoxErrView::Many(errors))
    }
}

/// The number of number tokens among `tokens`.
pub open spec fn count_numbers(tokens: Seq<TokenView>) -> nat
    decreases tokens.len(),
{
    if tokens.len() == 0 {
        0
    } else if tokens.last().token_type == TokenType::Number {
        count_numbers(tokens.drop_last()) + 1
    } else {
        count_numbers(tokens.drop_last())
    }
}

/// The lexemes of the number tokens among `tokens`, in their order.
pub open spec fn number_texts(tokens: Seq<TokenView>) -> Seq<Seq<char>>
    decreases tokens.len(),
{
    if tokens.len() == 0 {
        Seq::empty()
    } else if tokens.last().token_type == TokenType::Number {
        number_texts(tokens.drop_last()).push(tokens.last().lexeme)
    } else {
        number_texts(tokens.drop_last())
    }
}

/// The tokens with the values of the numbers put in place: the number token
/// that is the `k`-th of its kind carries the `k`-th of `values`, if there
/// are that many, and every other token is as it was.
pub open spec fn numbered(tokens: Seq<TokenView>, values: Seq<u64>) -> Seq<TokenView>
    decreases tokens.len(),
{
    if tokens.len() == 0 {
        tokens
    } else {
        let last = tokens.last();
        let k = count_numbers(tokens.drop_last());
        numbered(tokens.drop_last(), values).push(
            if last.token_type == TokenType::Number && k < values.len() {
                TokenView { literal: ObjectView::Number(values[k as int]), ..last }
            } else {
                last
            },
        )
    }
}

} // verus!
