//! The scanner: source text to tokens. It reads what [`crate::lexicon`]
//! describes.
use vstd::prelude::*;
use vstd::string::StringExecFns;
use crate::err::{errors_view, LoxErr, LoxErrView};
use crate::lexicon;
use crate::lexicon::{Lexeme, Scanned};
use crate::object::Object;
use crate::parser::{lemma_errors_push, lemma_tokens_push};
use crate::text::{characters, collect};
use crate::token::{tokens_view, Token, TokenView};
use crate::token_type::TokenType;

verus! {

pub struct Scanner {
    pub source: Vec<char>,
    pub tokens: Vec<Token>,
    pub start: usize,
    pub current: usize,
    pub line: usize,
}

pub fn is_digit(c: char) -> (r: bool)
    ensures
        r == lexicon::is_digit(c),
{
    '0' <= c && c <= '9'
}

pub fn is_alpha(c: char) -> (r: bool)
    ensures
        r == lexicon::is_alpha(c),
{
    ('a' <= c && c <= 'z') || ('A' <= c && c <= 'Z') || c == '_'
}

/// The kind of token that a word is.
pub fn word_kind(text: &String) -> (r: TokenType)
    ensures
        r == lexicon::word_kind(text@),
{
    if *text == String::from_str("and") {
        TokenType::And
    } else if *text == String::from_str("class") {
        TokenType::Class
    } else if *text == String::from_str("else") {
        TokenType::Else
    } else if *text == String::from_str("false") {
        TokenType::False
    } else if *text == String::from_str("for") {
        TokenType::For
    } else if *text == String::from_str("fun") {
        TokenType::Fun
    } else if *text == String::from_str("if") {
        TokenType::If
    } else if *text == String::from_str("nil") {
        TokenType::Nil
    } else if *text == String::from_str("or") {
        TokenType::Or
    } else if *text == String::from_str("print") {
        TokenType::Print
    } else if *text == String::from_str("return") {
        TokenType::Return
    } else if *text == String::from_str("super") {
        TokenType::Super
    } else if *text == String::from_str("this") {
        TokenType::This
    } else if *text == String::from_str("true") {
        TokenType::True
    } else if *text == String::from_str("var") {
        TokenType::Var
    } else if *text == String::from_str("while") {
        TokenType::While
    } else {
        TokenType::Identifier
    }
}

pub fn scan_error(line: usize, message: &str) -> (e: LoxErr)
    ensures
        e@ == lexicon::scan_error(line, message@),
{
    LoxErr::Scan { line, message: String::from_str(message) }
}

/// The value of what a step of the scanner returns.
pub open spec fn step_error(r: Result<(), LoxErr>) -> Option<LoxErrView> {
    match r {
        Ok(_) => None,
        Err(e) => Some(e@),
    }
}

impl Scanner {
    /// The scanner stands inside the text, at or behind the start of the
    /// token that it reads.
    pub open spec fn wf(&self) -> bool {
        self.start <= self.current <= self.source@.len()
    }

    /// The scanner has made the step `step` from `before`.
    pub open spec fn after(&self, before: &Scanner, step: Lexeme, r: Result<(), LoxErr>) -> bool {
        &&& self.source == before.source
        &&& self.start == before.start
        &&& self.current == step.pos
        &&& before.start < self.current <= self.source@.len()
        &&& self.line == step.line
        &&& tokens_view(self.tokens@) == match step.token {
            Some(t) => tokens_view(before.tokens@).push(t),
            None => tokens_view(before.tokens@),
        }
        &&& step_error(r) == step.error
    }

    /// A scanner at the start of `source`, on line 1.
    pub fn new(source: &str) -> (r: Scanner)
        ensures
            r.source@ == source@,
            r.tokens@.len() == 0,
            r.start == 0,
            r.current == 0,
            r.line == 1,
    {
        Scanner { source: characters(source), tokens: Vec::new(), start: 0, current: 0, line: 1 }
    }

    fn is_at_end(&self) -> (r: bool)
        ensures
            r == (self.current >= self.source@.len()),
    {
        self.current >= self.source.len()
    }

    fn peek(&self) -> (r: char)
        ensures
            r == lexicon::peek(self.source@, self.current as int),
    {
        if self.is_at_end() {
            return '\0';
        }
        self.source[self.current]
    }

    fn peek_next(&self) -> (r: char)
        requires
            self.wf(),
        ensures
            r == lexicon::peek(self.source@, self.current + 1),
    {
        if self.current >= self.source.len() || self.current + 1 >= self.source.len() {
            return '\0';
        }
        self.source[self.current + 1]
    }

    fn advance(&mut self) -> (r: char)
        requires
            old(self).wf(),
            old(self).current < old(self).source@.len(),
        ensures
            final(self).wf(),
            r == old(self).source@[old(self).current as int],
            final(self).current == old(self).current + 1,
            final(self).source == old(self).source,
            final(self).tokens == old(self).tokens,
            final(self).start == old(self).start,
            final(self).line == old(self).line,
    {
        let count = self.source.len();
        assert(self.current < count);
        self.current += 1;
        self.source[self.current - 1]
    }

    fn match_char(&mut self, expected: char) -> (r: bool)
        requires
            old(self).wf(),
        ensures
            final(self).wf(),
            r == (lexicon::peek(old(self).source@, old(self).current as int) == expected && old(
                self,
            ).current < old(self).source@.len()),
            final(self).current == if r {
                old(self).current + 1
            } else {
                old(self).current as int
            },
            final(self).source == old(self).source,
            final(self).tokens == old(self).tokens,
            final(self).start == old(self).start,
            final(self).line == old(self).line,
    {
        if self.is_at_end() {
            return false;
        }
        if self.source[self.current] != expected {
            return false;
        }
        let count = self.source.len();
        assert(self.current < count);
        self.current += 1;
        true
    }

    /// Counts a line, as far as lines can be counted.
    fn next_line(&mut self)
        ensures
            final(self).line == lexicon::bump(old(self).line, '\n'),
            final(self).source == old(self).source,
            final(self).tokens == old(self).tokens,
            final(self).start == old(self).start,
            final(self).current == old(self).current,
    {
        if self.line < usize::MAX {
            self.line += 1;
        }
    }

    /// Adds the token of the kind `token_type` that spans the text from the
    /// start of the token to where the scanner stands.
    fn push_token(&mut self, token_type: TokenType, literal: Object)
        requires
            old(self).wf(),
        ensures
            final(self).wf(),
            final(self).source == old(self).source,
            final(self).start == old(self).start,
            final(self).current == old(self).current,
            final(self).line == old(self).line,
            tokens_view(final(self).tokens@) == tokens_view(old(self).tokens@).push(
                TokenView {
                    token_type,
                    lexeme: old(self).source@.subrange(
                        old(self).start as int,
                        old(self).current as int,
                    ),
                    literal: literal@,
                    line: old(self).line,
                },
            ),
    {
        let text = collect(&self.source, self.start, self.current);
        let token = Token::new(token_type, text, literal, self.line);
        proof {
            lemma_tokens_push(self.tokens@, token);
        }
        self.tokens.push(token);
    }

    /// Reads an operator of one character, or of two if `=` follows; the
    /// first character is read already.
    fn operator(&mut self, single: TokenType, double: TokenType)
        requires
            old(self).wf(),
            old(self).current == old(self).start + 1,
        ensures
            final(self).wf(),
            final(self).after(
                old(self),
                lexicon::operator(
                    old(self).source@,
                    old(self).start as int,
                    old(self).line,
                    single,
                    double,
                ),
                Ok(()),
            ),
    {
        let tt = if self.match_char('=') {
            double
        } else {
            single
        };
        self.push_token(tt, Object::Nil);
    }

    /// Skips a comment that ends with `*/`; the scanner stands behind `/*`.
    fn block_comment(&mut self) -> (r: Result<(), LoxErr>)
        requires
            old(self).wf(),
        ensures
            final(self).wf(),
            final(self).source == old(self).source,
            final(self).tokens == old(self).tokens,
            final(self).start == old(self).start,
            final(self).current == lexicon::comment_end(old(self).source@, old(self).current as int),
            final(self).current >= old(self).current,
            final(self).line == lexicon::lines(
                old(self).source@,
                old(self).line,
                old(self).current as int,
                final(self).current as int,
            ),
            step_error(r) == if lexicon::comment_closed(
                old(self).source@,
                old(self).current as int,
            ) {
                None
            } else {
                Some(lexicon::scan_error(final(self).line, "Unterminated block comment."@))
            },
    {
        let ghost src = self.source@;
        let ghost from = self.current as int;
        let ghost first = self.line;
        let ghost end = lexicon::comment_end(src, from);
        proof {
            lemma_comment_end(src, from);
        }
        loop
            invariant
                self.wf(),
                self.source == old(self).source,
                self.tokens == old(self).tokens,
                self.start == old(self).start,
                src == self.source@,
                from == old(self).current,
                first == old(self).line,
                from <= self.current <= end <= src.len(),
                end == lexicon::comment_end(src, from),
                lexicon::comment_end(src, self.current as int) == end,
                lexicon::comment_closed(src, self.current as int) == lexicon::comment_closed(
                    src,
                    from,
                ),
                lexicon::lines(src, self.line, self.current as int, end) == lexicon::lines(
                    src,
                    first,
                    from,
                    end,
                ),
            decreases src.len() - self.current,
        {
            if self.is_at_end() {
                return Err(scan_error(self.line, "Unterminated block comment."));
            }
            if self.peek() == '*' && self.peek_next() == '/' {
                self.advance();
                self.advance();
                proof {
                    lemma_lines_plain(src, self.line, self.current - 2, self.current as int);
                }
                return Ok(());
            }
            proof {
                lemma_comment_end(src, self.current + 1);
            }
            if self.peek() == '\n' {
                self.next_line();
            }
            self.advance();
        }
    }

    /// Reads a string literal; the opening quote is read already.
    fn string(&mut self) -> (r: Result<(), LoxErr>)
        requires
            old(self).wf(),
            old(self).current == old(self).start + 1,
        ensures
            final(self).wf(),
            final(self).after(
                old(self),
                lexicon::string(old(self).source@, old(self).start as int, old(self).line),
                r,
            ),
    {
        let ghost src = self.source@;
        let ghost from = self.current as int;
        let ghost first = self.line;
        let ghost close = lexicon::quote_end(src, from);
        proof {
            lemma_quote_end(src, from);
        }
        while self.peek() != '"' && !self.is_at_end()
            invariant
                self.wf(),
                self.source == old(self).source,
                self.tokens == old(self).tokens,
                self.start == old(self).start,
                src == self.source@,
                from == old(self).current,
                first == old(self).line,
                from <= self.current <= close <= src.len(),
                close == lexicon::quote_end(src, from),
                lexicon::quote_end(src, self.current as int) == close,
                lexicon::lines(src, self.line, self.current as int, close) == lexicon::lines(
                    src,
                    first,
                    from,
                    close,
                ),
            decreases src.len() - self.current,
        {
            proof {
                lemma_quote_end(src, self.current + 1);
            }
            if self.peek() == '\n' {
                self.next_line();
            }
            self.advance();
        }
        if self.is_at_end() {
            return Err(scan_error(self.line, "Unterminated string."));
        }
        self.advance();
        let value = collect(&self.source, self.start + 1, self.current - 1);
        self.push_token(TokenType::String, Object::String(value));
        Ok(())
    }

    /// Steps over the digits at which the scanner stands.
    fn digits(&mut self)
        requires
            old(self).wf(),
        ensures
            final(self).wf(),
            final(self).source == old(self).source,
            final(self).tokens == old(self).tokens,
            final(self).start == old(self).start,
            final(self).line == old(self).line,
            final(self).current == lexicon::digits_end(old(self).source@, old(self).current as int),
            final(self).current >= old(self).current,
    {
        while is_digit(self.peek()) && !self.is_at_end()
            invariant
                self.wf(),
                self.source == old(self).source,
                self.tokens == old(self).tokens,
                self.start == old(self).start,
                self.line == old(self).line,
                self.current >= old(self).current,
                lexicon::digits_end(self.source@, self.current as int) == lexicon::digits_end(
                    old(self).source@,
                    old(self).current as int,
                ),
            decreases self.source@.len() - self.current,
        {
            self.advance();
        }
    }

    /// Reads a number; its first digit is read already. The token carries
    /// nil in place of the number's value.
    fn number(&mut self)
        requires
            old(self).wf(),
            old(self).current == old(self).start + 1,
            lexicon::is_digit(old(self).source@[old(self).start as int]),
        ensures
            final(self).wf(),
            final(self).after(
                old(self),
                lexicon::spanning(
                    old(self).source@,
                    TokenType::Number,
                    old(self).start as int,
                    lexicon::number_end(old(self).source@, old(self).start as int),
                    crate::object::ObjectView::Nil,
                    old(self).line,
                ),
                Ok(()),
            ),
    {
        self.digits();
        if self.peek() == '.' && is_digit(self.peek_next()) {
            self.advance();
            self.digits();
        }
        self.push_token(TokenType::Number, Object::Nil);
    }

    /// Reads a keyword or an identifier; its first character is read already.
    fn identifier(&mut self)
        requires
            old(self).wf(),
            old(self).current == old(self).start + 1,
        ensures
            final(self).wf(),
            final(self).after(
                old(self),
                lexicon::spanning(
                    old(self).source@,
                    lexicon::word_kind(
                        old(self).source@.subrange(
                            old(self).start as int,
                            lexicon::word_end(old(self).source@, old(self).start + 1),
                        ),
                    ),
                    old(self).start as int,
                    lexicon::word_end(old(self).source@, old(self).start + 1),
                    lexicon::word_literal(
                        lexicon::word_kind(
                            old(self).source@.subrange(
                                old(self).start as int,
                                lexicon::word_end(old(self).source@, old(self).start + 1),
                            ),
                        ),
                    ),
                    old(self).line,
                ),
                Ok(()),
            ),
    {
        while (is_alpha(self.peek()) || is_digit(self.peek())) && !self.is_at_end()
            invariant
                self.wf(),
                self.source == old(self).source,
                self.tokens == old(self).tokens,
                self.start == old(self).start,
                self.line == old(self).line,
                self.current >= old(self).current,
                lexicon::word_end(self.source@, self.current as int) == lexicon::word_end(
                    old(self).source@,
                    old(self).current as int,
                ),
            decreases self.source@.len() - self.current,
        {
            self.advance();
        }
        let text = collect(&self.source, self.start, self.current);
        let tt = word_kind(&text);
        match tt {
            TokenType::False => self.push_token(tt, Object::Bool(false)),
            TokenType::True => self.push_token(tt, Object::Bool(true)),
            _ => self.push_token(tt, Object::Nil),
        }
    }

    /// Reads what begins with a slash; the slash is read already.
    fn slash(&mut self) -> (r: Result<(), LoxErr>)
        requires
            old(self).wf(),
            old(self).current == old(self).start + 1,
        ensures
            final(self).wf(),
            final(self).after(
                old(self),
                lexicon::slash(old(self).source@, old(self).start as int, old(self).line),
                r,
            ),
    {
        if self.match_char('/') {
            while self.peek() != '\n' && !self.is_at_end()
                invariant
                    self.wf(),
                    self.source == old(self).source,
                    self.tokens == old(self).tokens,
                    self.start == old(self).start,
                    self.line == old(self).line,
                    self.current >= old(self).start + 2,
                    lexicon::line_end(self.source@, self.current as int) == lexicon::line_end(
                        old(self).source@,
                        old(self).start + 2,
                    ),
                decreases self.source@.len() - self.current,
            {
                self.advance();
            }
            Ok(())
        } else if self.match_char('*') {
            self.block_comment()
        } else {
            self.push_token(TokenType::Slash, Object::Nil);
            Ok(())
        }
    }

    /// Adds the token of one character that the scanner has just read.
    fn single(&mut self, token_type: TokenType)
        requires
            old(self).wf(),
            old(self).current == old(self).start + 1,
        ensures
            final(self).wf(),
            final(self).after(
                old(self),
                lexicon::spanning(
                    old(self).source@,
                    token_type,
                    old(self).start as int,
                    old(self).start + 1,
                    crate::object::ObjectView::Nil,
                    old(self).line,
                ),
                Ok(()),
            ),
    {
        self.push_token(token_type, Object::Nil);
    }

    /// Reads the token, comment or blank at which the scanner stands.
    fn scan_one_token(&mut self) -> (r: Result<(), LoxErr>)
        requires
            old(self).wf(),
            old(self).start == old(self).current,
            old(self).current < old(self).source@.len(),
        ensures
            final(self).wf(),
            final(self).after(
                old(self),
                lexicon::scan_token(old(self).source@, old(self).current as int, old(self).line),
                r,
            ),
    {
        let c = self.advance();
        if c == '(' {
            self.single(TokenType::LeftParen);
        } else if c == ')' {
            self.single(TokenType::RightParen);
        } else if c == '{' {
            self.single(TokenType::LeftBrace);
        } else if c == '}' {
            self.single(TokenType::RightBrace);
        } else if c == ',' {
            self.single(TokenType::Comma);
        } else if c == '.' {
            self.single(TokenType::Dot);
        } else if c == '-' {
            self.single(TokenType::Minus);
        } else if c == '+' {
            self.single(TokenType::Plus);
        } else if c == ';' {
            self.single(TokenType::Semicolon);
        } else if c == '*' {
            self.single(TokenType::Star);
        } else if c == '!' {
            self.operator(TokenType::Bang, TokenType::BangEqual);
        } else if c == '=' {
            self.operator(TokenType::Equal, TokenType::EqualEqual);
        } else if c == '<' {
            self.operator(TokenType::Less, TokenType::LessEqual);
        } else if c == '>' {
            self.operator(TokenType::Greater, TokenType::GreaterEqual);
        } else if c == '/' {
            return self.slash();
        } else if c == ' ' || c == '\r' || c == '\t' {
        } else if c == '\n' {
            self.next_line();
        } else if c == '"' {
            return self.string();
        } else if is_digit(c) {
            self.number();
        } else if is_alpha(c) {
            self.identifier();
        } else {
            return Err(scan_error(self.line, "Unexpected character."));
        }
        Ok(())
    }

    /// Scans the source from where the scanner stands to its end and adds
    /// the end-of-file token. The failures do not stop the scan; they are what
    /// the scan ends with.
    pub fn scan_tokens(&mut self) -> (r: Result<(), LoxErr>)
        requires
            old(self).current <= old(self).source@.len(),
        ensures
            final(self).source == old(self).source,
            final(self).current == old(self).source@.len(),
            ({
                let s = lexicon::scan_rest(
                    old(self).source@,
                    Scanned {
                        pos: old(self).current as int,
                        line: old(self).line,
                        tokens: tokens_view(old(self).tokens@),
                        errors: Seq::empty(),
                    },
                );
                &&& final(self).line == s.line
                &&& tokens_view(final(self).tokens@) == s.tokens.push(lexicon::end_of_file(s.line))
                &&& crate::resolver::unit_result(r) == lexicon::outcome(s.errors)
            }),
    {
        let mut err_vec: Vec<LoxErr> = Vec::new();
        assert(errors_view(err_vec@) =~= Seq::empty());
        self.start = self.current;
        let ghost begun = Scanned {
            pos: old(self).current as int,
            line: old(self).line,
            tokens: tokens_view(old(self).tokens@),
            errors: Seq::empty(),
        };
        while !self.is_at_end()
            invariant
                self.wf(),
                self.source == old(self).source,
                lexicon::scan_rest(self.source@, begun) == lexicon::scan_rest(
                    self.source@,
                    Scanned {
                        pos: self.current as int,
                        line: self.line,
                        tokens: tokens_view(self.tokens@),
                        errors: errors_view(err_vec@),
                    },
                ),
            decreases self.source@.len() - self.current,
        {
            self.start = self.current;
            match self.scan_one_token() {
                Ok(_) => {},
                Err(err) => {
                    proof {
                        lemma_errors_push(err_vec@, err);
                    }
                    err_vec.push(err);
                },
            }
        }
        let token = Token::new(TokenType::Eof, String::new(), Object::Nil, self.line);
        proof {
            lemma_tokens_push(self.tokens@, token);
        }
        self.tokens.push(token);
        if err_vec.len() > 1 {
            return Err(LoxErr::Many(err_vec));
        } else if err_vec.len() == 1 {
            assert(errors_view(err_vec@)[0] == err_vec@[0]@);
            return Err(err_vec.remove(0));
        }
        Ok(())
    }

    /// The lexemes of the number tokens read so far, in their order. Their
    /// values are to be computed from them and put in place with
    /// [`Scanner::set_numbers`].
    pub fn number_lexemes(&self) -> (r: Vec<String>)
        ensures
            texts_view(r@) == lexicon::number_texts(tokens_view(self.tokens@)),
    {
        let mut r: Vec<String> = Vec::new();
        let ghost views = tokens_view(self.tokens@);
        let mut i: usize = 0;
        assert(views.subrange(0, 0) =~= Seq::empty());
        assert(texts_view(r@) =~= Seq::empty());
        while i < self.tokens.len()
            invariant
                i <= self.tokens@.len(),
                views == tokens_view(self.tokens@),
                texts_view(r@) == lexicon::number_texts(views.subrange(0, i as int)),
            decreases self.tokens@.len() - i,
        {
            assert(views.subrange(0, i + 1).drop_last() =~= views.subrange(0, i as int));
            if self.tokens[i].token_type == TokenType::Number {
                let ghost before = r@;
                r.push(self.tokens[i].lexeme.clone());
                assert(texts_view(r@) =~= texts_view(before).push(self.tokens@[i as int].lexeme@));
            }
            i = i + 1;
        }
        assert(views.subrange(0, i as int) =~= views);
        r
    }

    /// Puts the values of the numbers in place: the `k`-th number token
    /// carries the number whose bit pattern is the `k`-th of `values`.
    pub fn set_numbers(&mut self, values: &Vec<u64>)
        ensures
            final(self).source == old(self).source,
            final(self).start == old(self).start,
            final(self).current == old(self).current,
            final(self).line == old(self).line,
            tokens_view(final(self).tokens@) == lexicon::numbered(
                tokens_view(old(self).tokens@),
                values@,
            ),
    {
        let ghost before = tokens_view(self.tokens@);
        let mut i: usize = 0;
        let mut k: usize = 0;
        assert(before.subrange(0, 0) =~= Seq::empty());
        assert(tokens_view(self.tokens@).subrange(0, 0) =~= Seq::empty());
        while i < self.tokens.len()
            invariant
                i <= self.tokens@.len(),
                k <= i,
                self.source == old(self).source,
                self.start == old(self).start,
                self.current == old(self).current,
                self.line == old(self).line,
                before == tokens_view(old(self).tokens@),
                self.tokens@.len() == before.len(),
                forall|j: int| i <= j < before.len() ==> self.tokens@[j]@ == before[j],
                k == lexicon::count_numbers(before.subrange(0, i as int)),
                tokens_view(self.tokens@).subrange(0, i as int) == lexicon::numbered(
                    before.subrange(0, i as int),
                    values@,
                ),
            decreases self.tokens@.len() - i,
        {
            assert(before.subrange(0, i + 1).drop_last() =~= before.subrange(0, i as int));
            let ghost earlier = tokens_view(self.tokens@);
            if self.tokens[i].token_type == TokenType::Number {
                if k < values.len() {
                    self.tokens[i].literal = Object::Number(values[k]);
                }
                k = k + 1;
            }
            assert(tokens_view(self.tokens@).subrange(0, i + 1) =~= earlier.subrange(0, i as int).push(
                self.tokens@[i as int]@,
            ));
            i = i + 1;
        }
        assert(before.subrange(0, i as int) =~= before);
        assert(tokens_view(self.tokens@).subrange(0, i as int) =~= tokens_view(self.tokens@));
    }
}

/// The texts of a sequence, each as its characters.
pub open spec fn texts_view(texts: Seq<String>) -> Seq<Seq<char>> {
    Seq::new(texts.len(), |i: int| texts[i]@)
}

/// The end of a comment lies between where the search begins and the end of
/// the text.
pub proof fn lemma_comment_end(src: Seq<char>, pos: int)
    requires
        0 <= pos <= src.len(),
    ensures
        pos <= lexicon::comment_end(src, pos) <= src.len(),
    decreases src.len() - pos,
{
    if pos < src.len() && !(src[pos] == '*' && lexicon::peek(src, pos + 1) == '/') {
        lemma_comment_end(src, pos + 1);
    }
}

/// The next quote lies between where the search begins and the end of the
/// text.
pub proof fn lemma_quote_end(src: Seq<char>, pos: int)
    requires
        0 <= pos <= src.len(),
    ensures
        pos <= lexicon::quote_end(src, pos) <= src.len(),
    decreases src.len() - pos,
{
    if pos < src.len() && src[pos] != '"' {
        lemma_quote_end(src, pos + 1);
    }
}

/// Over `*/` the line number stays.
pub proof fn lemma_lines_plain(src: Seq<char>, line: usize, from: int, to: int)
    requires
        0 <= from,
        to == from + 2,
        to <= src.len(),
        src[from] == '*',
        src[from + 1] == '/',
    ensures
        lexicon::lines(src, line, from, to) == line,
{
    reveal_with_fuel(lexicon::lines, 3);
}

} // verus!
