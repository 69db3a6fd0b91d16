//! The parser: recursive descent over the tokens, one token of lookahead.
//! Every function reads what the function of the same name in
//! [`crate::grammar`] describes.
use vstd::prelude::*;
use vstd::string::StringExecFns;
use crate::err::{errors_view, LoxErr, LoxErrView};
use crate::expr::{
    exprs_view, AssignExpr, BinaryExpr, CallExpr, Expr, ExprView, GetExpr, GroupingExpr,
    LiteralExpr, LogicalExpr, SetExpr, SuperExpr, ThisExpr, UnaryExpr, VariableExpr,
};
use crate::grammar;
use crate::grammar::{Cursor, Parsed};
use crate::object::Object;
use crate::stmt::{
    functions_view, optional_expr_view, stmts_view, ClassDeclaration, FunctionDeclaration,
    FunctionView, Stmt, StmtView,
};
use crate::token::{tokens_view, Token, TokenView};
use crate::token_type::TokenType;

verus! {

pub struct Parser<'a> {
    pub tokens: &'a Vec<Token>,
    pub current: usize,
    /// The diagnostics, in the order in which they arose.
    pub errors: Vec<LoxErr>,
}

/// The value of what a parsing function returns.
pub open spec fn expr_result(r: Result<Expr, LoxErr>) -> Result<ExprView, LoxErrView> {
    match r {
        Ok(e) => Ok(e@),
        Err(e) => Err(e@),
    }
}

pub open spec fn stmt_result(r: Result<Stmt, LoxErr>) -> Result<StmtView, LoxErrView> {
    match r {
        Ok(s) => Ok(s@),
        Err(e) => Err(e@),
    }
}

pub open spec fn token_result(r: Result<Token, LoxErr>) -> Result<TokenView, LoxErrView> {
    match r {
        Ok(t) => Ok(t@),
        Err(e) => Err(e@),
    }
}

pub open spec fn exprs_result(r: Result<Vec<Expr>, LoxErr>) -> Result<Seq<ExprView>, LoxErrView> {
    match r {
        Ok(v) => Ok(exprs_view(v@)),
        Err(e) => Err(e@),
    }
}

pub open spec fn stmts_result(r: Result<Vec<Stmt>, LoxErr>) -> Result<Seq<StmtView>, LoxErrView> {
    match r {
        Ok(v) => Ok(stmts_view(v@)),
        Err(e) => Err(e@),
    }
}

pub open spec fn tokens_result(r: Result<Vec<Token>, LoxErr>) -> Result<Seq<TokenView>, LoxErrView> {
    match r {
        Ok(v) => Ok(tokens_view(v@)),
        Err(e) => Err(e@),
    }
}

pub open spec fn function_result(r: Result<FunctionDeclaration, LoxErr>) -> Result<
    FunctionView,
    LoxErrView,
> {
    match r {
        Ok(f) => Ok(f@),
        Err(e) => Err(e@),
    }
}

pub open spec fn functions_result(r: Result<Vec<FunctionDeclaration>, LoxErr>) -> Result<
    Seq<FunctionView>,
    LoxErrView,
> {
    match r {
        Ok(v) => Ok(functions_view(v@)),
        Err(e) => Err(e@),
    }
}

pub open spec fn optional_stmt_result(r: Result<Option<Stmt>, LoxErr>) -> Result<
    Option<StmtView>,
    LoxErrView,
> {
    match r {
        Ok(Some(s)) => Ok(Some(s@)),
        Ok(None) => Ok(None),
        Err(e) => Err(e@),
    }
}

pub open spec fn optional_expr_result(r: Result<Option<Expr>, LoxErr>) -> Result<
    Option<ExprView>,
    LoxErrView,
> {
    match r {
        Ok(Some(e)) => Ok(Some(e@)),
        Ok(None) => Ok(None),
        Err(e) => Err(e@),
    }
}

pub proof fn lemma_exprs_push(v: Seq<Expr>, e: Expr)
    ensures
        exprs_view(v.push(e)) == exprs_view(v).push(e@),
{
    assert(exprs_view(v.push(e)) =~= exprs_view(v).push(e@));
}

pub proof fn lemma_stmts_push(v: Seq<Stmt>, s: Stmt)
    ensures
        stmts_view(v.push(s)) == stmts_view(v).push(s@),
{
    assert(stmts_view(v.push(s)) =~= stmts_view(v).push(s@));
}

pub proof fn lemma_tokens_push(v: Seq<Token>, t: Token)
    ensures
        tokens_view(v.push(t)) == tokens_view(v).push(t@),
{
    assert(tokens_view(v.push(t)) =~= tokens_view(v).push(t@));
}

pub proof fn lemma_functions_push(v: Seq<FunctionDeclaration>, f: FunctionDeclaration)
    ensures
        functions_view(v.push(f)) == functions_view(v).push(f@),
{
    assert(functions_view(v.push(f)) =~= functions_view(v).push(f@));
}

pub proof fn lemma_errors_push(v: Seq<LoxErr>, e: LoxErr)
    ensures
        errors_view(v.push(e)) == errors_view(v).push(e@),
{
    assert(errors_view(v.push(e)) =~= errors_view(v).push(e@));
}

/// The diagnostic `message` at `token`.
pub fn error_at(token: &Token, message: &str) -> (e: LoxErr)
    ensures
        e@ == grammar::error_at(token@, message@),
{
    let lexeme = if token.token_type == TokenType::Eof {
        String::from_str("end")
    } else {
        let mut quoted = String::from_str("'");
        quoted.append(token.lexeme.as_str());
        quoted.append("'");
        quoted
    };
    LoxErr::Parse { line: token.line, lexeme, message: String::from_str(message) }
}

/// The loop that a `for` with these parts stands for.
pub fn desugar_for(
    initializer: Option<Stmt>,
    condition: Expr,
    increment: Option<Expr>,
    body: Stmt,
) -> (r: Stmt)
    ensures
        r@ == grammar::desugared_for(
            match initializer {
                Some(s) => Some(s@),
                None => None,
            },
            condition@,
            match increment {
                Some(e) => Some(e@),
                None => None,
            },
            body@,
        ),
{
    let ghost body_view = body@;
    let ghost condition_view = condition@;
    let ghost increment_view = optional_expr_view(increment);
    let ghost repeated = match increment_view {
        Some(i) => StmtView::Block {
            statements: seq![body_view, StmtView::Expression { expression: i }],
        },
        None => body_view,
    };
    let for_body = match increment {
        Some(step) => {
            let ghost step_view = step@;
            let statements = vec![body, Stmt::Expression { expression: step }];
            assert(stmts_view(statements@) =~= seq![
                body_view,
                StmtView::Expression { expression: step_view },
            ]);
            Stmt::Block { statements }
        },
        None => body,
    };
    assert(for_body@ == repeated);
    let looping = Stmt::While { condition: condition, body: Box::new(for_body) };
    let ghost looping_view = looping@;
    assert(looping_view == StmtView::While { condition: condition_view, body: Box::new(repeated) });
    match initializer {
        Some(first) => {
            let ghost first_view = first@;
            let statements = vec![first, looping];
            assert(stmts_view(statements@) =~= seq![first_view, looping_view]);
            let r = Stmt::Block { statements };
            assert(r@ == StmtView::Block { statements: seq![first_view, looping_view] });
            r
        },
        None => looping,
    }
}

impl<'a> Parser<'a> {
    /// The tokens, each by its value.
    pub open spec fn ts(&self) -> Seq<TokenView> {
        tokens_view(self.tokens@)
    }

    /// Where the parse stands.
    pub open spec fn cursor(&self) -> Cursor {
        Cursor { pos: self.current as int, notes: errors_view(self.errors@) }
    }

    /// The tokens end with an end-of-file token and the parser stands on one
    /// of them.
    pub open spec fn wf(&self) -> bool {
        grammar::terminated(self.ts()) && self.current < self.tokens@.len()
    }

    /// The parser has moved forward over the same tokens.
    pub open spec fn follows(&self, before: &Parser<'a>) -> bool {
        &&& self.wf()
        &&& self.tokens == before.tokens
        &&& self.current >= before.current
    }

    /// The parser has read, from where `before` stood, what `expected` says:
    /// it stands where that part ends, and a part read whole has taken at
    /// least one token.
    pub open spec fn has_read<T>(
        &self,
        before: &Parser<'a>,
        result: Result<T, LoxErrView>,
        expected: Parsed<T>,
    ) -> bool {
        &&& self.follows(before)
        &&& expected == (Parsed { result, cursor: self.cursor() })
        &&& result is Ok ==> self.current > before.current
    }

    pub fn new(tokens: &'a Vec<Token>) -> (r: Parser<'a>)
        requires
            grammar::terminated(tokens_view(tokens@)),
        ensures
            r.wf(),
            r.tokens == tokens,
            r.current == 0,
            r.errors@.len() == 0,
    {
        Parser { tokens, current: 0, errors: Vec::new() }
    }

    fn peek(&self) -> (r: &Token)
        requires
            self.wf(),
        ensures
            *r == self.tokens@[self.current as int],
            r@ == self.ts()[self.current as int],
    {
        &self.tokens[self.current]
    }

    fn previous(&self) -> (r: &Token)
        requires
            self.wf(),
            self.current >= 1,
        ensures
            *r == self.tokens@[self.current - 1],
            r@ == self.ts()[self.current - 1],
    {
        &self.tokens[self.current - 1]
    }

    fn is_at_end(&self) -> (r: bool)
        requires
            self.wf(),
        ensures
            r == (self.ts()[self.current as int].token_type == TokenType::Eof),
    {
        self.peek().token_type == TokenType::Eof
    }

    fn check(&self, tt: TokenType) -> (r: bool)
        requires
            self.wf(),
        ensures
            r == grammar::check(self.ts(), self.current as int, tt),
    {
        if self.is_at_end() {
            return false;
        }
        self.peek().token_type == tt
    }

    /// Steps over the current token, unless it is the end of file.
    fn advance(&mut self)
        requires
            old(self).wf(),
        ensures
            final(self).follows(old(self)),
            final(self).errors == old(self).errors,
            final(self).current as int == if old(self).ts()[old(self).current as int].token_type
                == TokenType::Eof {
                old(self).current as int
            } else {
                old(self).current + 1
            },
    {
        if !self.is_at_end() {
            let count = self.tokens.len();
            assert(self.current + 1 < count) by {
                assert(self.ts().last().token_type == TokenType::Eof);
            }
            self.current += 1;
        }
    }

    /// Records a diagnostic and goes on.
    fn note(&mut self, e: LoxErr)
        requires
            old(self).wf(),
        ensures
            final(self).follows(old(self)),
            final(self).current == old(self).current,
            final(self).cursor() == grammar::noted(old(self).cursor(), e@),
    {
        proof {
            lemma_errors_push(self.errors@, e);
        }
        self.errors.push(e);
    }

    fn consume(&mut self, tt: TokenType, message: &str) -> (r: Result<Token, LoxErr>)
        requires
            old(self).wf(),
        ensures
            final(self).has_read(
                old(self),
                token_result(r),
                grammar::consume(old(self).ts(), old(self).cursor(), tt, message@),
            ),
    {
        if self.check(tt) {
            let token = self.peek().clone();
            self.advance();
            Ok(token)
        } else {
            Err(error_at(self.peek(), message))
        }
    }

    /// Steps over the current token if it is of the kind `tt`.
    fn matches(&mut self, tt: TokenType) -> (r: bool)
        requires
            old(self).wf(),
        ensures
            final(self).follows(old(self)),
            r == grammar::check(old(self).ts(), old(self).current as int, tt),
            final(self).cursor() == if r {
                grammar::step(old(self).cursor())
            } else {
                old(self).cursor()
            },
    {
        if self.check(tt) {
            self.advance();
            true
        } else {
            false
        }
    }

    /// Steps over the current token if it is an operator of the binary level
    /// `level`.
    fn matches_level(&mut self, level: u8) -> (r: bool)
        requires
            old(self).wf(),
            1 <= level <= 6,
        ensures
            final(self).follows(old(self)),
            r == (old(self).ts()[old(self).current as int].token_type != TokenType::Eof
                && grammar::level_operator(
                level as nat,
                old(self).ts()[old(self).current as int].token_type,
            )),
            final(self).cursor() == if r {
                grammar::step(old(self).cursor())
            } else {
                old(self).cursor()
            },
    {
        let kind = self.peek().token_type;
        let found = if level == 1 {
            kind == TokenType::Slash || kind == TokenType::Star
        } else if level == 2 {
            kind == TokenType::Minus || kind == TokenType::Plus
        } else if level == 3 {
            kind == TokenType::Greater || kind == TokenType::GreaterEqual || kind
                == TokenType::Less || kind == TokenType::LessEqual
        } else if level == 4 {
            kind == TokenType::BangEqual || kind == TokenType::EqualEqual
        } else if level == 5 {
            kind == TokenType::And
        } else {
            kind == TokenType::Or
        };
        if found {
            self.advance();
        }
        found
    }

    fn primary(&mut self) -> (r: Result<Expr, LoxErr>)
        requires
            old(self).wf(),
        ensures
            final(self).has_read(
                old(self),
                expr_result(r),
                grammar::primary(old(self).ts(), old(self).cursor()),
            ),
        decreases old(self).tokens@.len() - old(self).current, 0nat, 0nat,
    {
        let token = self.peek().clone();
        match token.token_type {
            TokenType::False
            | TokenType::True
            | TokenType::Nil
            | TokenType::Number
            | TokenType::String => {
                self.advance();
                Ok(Expr::Literal(LiteralExpr::new(token.literal)))
            },
            TokenType::This => {
                self.advance();
                Ok(Expr::This(ThisExpr::new(token)))
            },
            TokenType::Super => {
                self.advance();
                self.consume(TokenType::Dot, "Expect '.' after 'super'.")?;
                let method = self.consume(TokenType::Identifier, "Expect superclass method name.")?;
                Ok(Expr::Super(SuperExpr::new(token, method)))
            },
            TokenType::Identifier => {
                self.advance();
                Ok(Expr::Variable(VariableExpr::new(token)))
            },
            TokenType::LeftParen => {
                self.advance();
                let expr = self.expression()?;
                self.consume(TokenType::RightParen, "Expect ')' after expression.")?;
                Ok(Expr::Grouping(GroupingExpr::new(expr)))
            },
            _ => Err(error_at(&token, "Expect expression.")),
        }
    }

    /// Reads the arguments of a call and its closing parenthesis; the parser
    /// stands behind the opening one. From the 256th argument on, each is
    /// reported in `errors`, and the list goes on.
    pub fn finish_call(&mut self, callee: Expr) -> (r: Result<Expr, LoxErr>)
        requires
            old(self).wf(),
        ensures
            final(self).has_read(
                old(self),
                expr_result(r),
                grammar::finish_call(old(self).ts(), old(self).cursor(), callee@),
            ),
        decreases old(self).tokens@.len() - old(self).current, 31nat, 0nat,
    {
        let mut arguments: Vec<Expr> = Vec::new();
        let mut more = !self.check(TokenType::RightParen);
        let ghost total = if more {
            grammar::arguments(self.ts(), self.cursor(), Seq::empty())
        } else {
            grammar::accept(Seq::<ExprView>::empty(), self.cursor())
        };
        assert(exprs_view(arguments@) =~= Seq::<ExprView>::empty());
        while more
            invariant
                self.follows(old(self)),
                total == if grammar::check(
                    old(self).ts(),
                    old(self).current as int,
                    TokenType::RightParen,
                ) {
                    grammar::accept(Seq::<ExprView>::empty(), old(self).cursor())
                } else {
                    grammar::arguments(old(self).ts(), old(self).cursor(), Seq::empty())
                },
                more ==> total == grammar::arguments(self.ts(), self.cursor(), exprs_view(arguments@)),
                !more ==> total == grammar::accept(exprs_view(arguments@), self.cursor()),
            decreases self.tokens@.len() - self.current,
        {
            assert(exprs_view(arguments@).len() == arguments@.len());
            if arguments.len() >= 255 {
                let e = error_at(self.peek(), "Can't have more than 255 arguments.");
                self.note(e);
            }
            let argument = self.expression()?;
            proof {
                lemma_exprs_push(arguments@, argument);
            }
            arguments.push(argument);
            more = self.matches(TokenType::Comma);
        }
        let paren = self.consume(TokenType::RightParen, "Expect ')' after arguments.")?;
        Ok(Expr::Call(CallExpr::new(callee, paren, arguments)))
    }

    fn call(&mut self) -> (r: Result<Expr, LoxErr>)
        requires
            old(self).wf(),
        ensures
            final(self).has_read(
                old(self),
                expr_result(r),
                grammar::call(old(self).ts(), old(self).cursor()),
            ),
        decreases old(self).tokens@.len() - old(self).current, 1nat, 0nat,
    {
        let mut expr = self.primary()?;
        loop
            invariant
                self.follows(old(self)),
                self.current > old(self).current,
                grammar::call(old(self).ts(), old(self).cursor()) == grammar::call_rest(
                    self.ts(),
                    self.cursor(),
                    expr@,
                ),
            decreases self.tokens@.len() - self.current,
        {
            if self.matches(TokenType::LeftParen) {
                expr = self.finish_call(expr)?;
            } else if self.matches(TokenType::Dot) {
                let name = self.consume(TokenType::Identifier, "Expect property name after '.'.")?;
                expr = Expr::Get(GetExpr::new(expr, name));
            } else {
                return Ok(expr);
            }
        }
    }

    fn unary(&mut self) -> (r: Result<Expr, LoxErr>)
        requires
            old(self).wf(),
        ensures
            final(self).has_read(
                old(self),
                expr_result(r),
                grammar::unary(old(self).ts(), old(self).cursor()),
            ),
        decreases old(self).tokens@.len() - old(self).current, 2nat, 0nat,
    {
        if self.check(TokenType::Bang) || self.check(TokenType::Minus) {
            let operator = self.peek().clone();
            self.advance();
            let right = self.unary()?;
            return Ok(Expr::Unary(UnaryExpr::new(operator, right)));
        }
        self.call()
    }

    /// An operand of the binary level `level`.
    fn operand(&mut self, level: u8) -> (r: Result<Expr, LoxErr>)
        requires
            old(self).wf(),
            1 <= level <= 6,
        ensures
            final(self).has_read(
                old(self),
                expr_result(r),
                grammar::operand(old(self).ts(), old(self).cursor(), level as nat),
            ),
        decreases old(self).tokens@.len() - old(self).current, 3nat + level, 0nat,
    {
        if level <= 1 {
            self.unary()
        } else if level == 2 {
            self.factor()
        } else if level == 3 {
            self.term()
        } else if level == 4 {
            self.comparison()
        } else if level == 5 {
            self.equality()
        } else {
            self.and()
        }
    }

    /// The binary level `level`.
    fn chain(&mut self, level: u8) -> (r: Result<Expr, LoxErr>)
        requires
            old(self).wf(),
            1 <= level <= 6,
        ensures
            final(self).has_read(
                old(self),
                expr_result(r),
                grammar::chain(old(self).ts(), old(self).cursor(), level as nat),
            ),
        decreases old(self).tokens@.len() - old(self).current, 3nat + level, 1nat,
    {
        let mut expr = self.operand(level)?;
        loop
            invariant
                1 <= level <= 6,
                self.follows(old(self)),
                self.current > old(self).current,
                grammar::chain(old(self).ts(), old(self).cursor(), level as nat)
                    == grammar::chain_rest(self.ts(), self.cursor(), level as nat, expr@),
            decreases self.tokens@.len() - self.current,
        {
            if !self.matches_level(level) {
                return Ok(expr);
            }
            let operator = self.previous().clone();
            let right = self.operand(level)?;
            expr = if level >= 5 {
                Expr::Logical(LogicalExpr::new(expr, operator, right))
            } else {
                Expr::Binary(BinaryExpr::new(expr, operator, right))
            };
        }
    }

    fn factor(&mut self) -> (r: Result<Expr, LoxErr>)
        requires
            old(self).wf(),
        ensures
            final(self).has_read(
                old(self),
                expr_result(r),
                grammar::chain(old(self).ts(), old(self).cursor(), 1),
            ),
        decreases old(self).tokens@.len() - old(self).current, 4nat, 2nat,
    {
        self.chain(1)
    }

    fn term(&mut self) -> (r: Result<Expr, LoxErr>)
        requires
            old(self).wf(),
        ensures
            final(self).has_read(
                old(self),
                expr_result(r),
                grammar::chain(old(self).ts(), old(self).cursor(), 2),
            ),
        decreases old(self).tokens@.len() - old(self).current, 5nat, 2nat,
    {
        self.chain(2)
    }

    fn comparison(&mut self) -> (r: Result<Expr, LoxErr>)
        requires
            old(self).wf(),
        ensures
            final(self).has_read(
                old(self),
                expr_result(r),
                grammar::chain(old(self).ts(), old(self).cursor(), 3),
            ),
        decreases old(self).tokens@.len() - old(self).current, 6nat, 2nat,
    {
        self.chain(3)
    }

    fn equality(&mut self) -> (r: Result<Expr, LoxErr>)
        requires
            old(self).wf(),
        ensures
            final(self).has_read(
                old(self),
                expr_result(r),
                grammar::chain(old(self).ts(), old(self).cursor(), 4),
            ),
        decreases old(self).tokens@.len() - old(self).current, 7nat, 2nat,
    {
        self.chain(4)
    }

    fn and(&mut self) -> (r: Result<Expr, LoxErr>)
        requires
            old(self).wf(),
        ensures
            final(self).has_read(
                old(self),
                expr_result(r),
                grammar::chain(old(self).ts(), old(self).cursor(), 5),
            ),
        decreases old(self).tokens@.len() - old(self).current, 8nat, 2nat,
    {
        self.chain(5)
    }

    fn or(&mut self) -> (r: Result<Expr, LoxErr>)
        requires
            old(self).wf(),
        ensures
            final(self).has_read(
                old(self),
                expr_result(r),
                grammar::chain(old(self).ts(), old(self).cursor(), 6),
            ),
        decreases old(self).tokens@.len() - old(self).current, 9nat, 2nat,
    {
        self.chain(6)
    }

    fn assignment(&mut self) -> (r: Result<Expr, LoxErr>)
        requires
            old(self).wf(),
        ensures
            final(self).has_read(
                old(self),
                expr_result(r),
                grammar::assignment(old(self).ts(), old(self).cursor()),
            ),
        decreases old(self).tokens@.len() - old(self).current, 20nat, 0nat,
    {
        let expr = self.or()?;
        if self.matches(TokenType::Equal) {
            let equals = self.previous().clone();
            let value = self.assignment()?;
            match expr {
                Expr::Variable(variable_expr) => {
                    return Ok(Expr::Assign(AssignExpr::new(variable_expr.name, value)));
                },
                Expr::Get(get_expr) => {
                    return Ok(
                        Expr::SetField(
                            SetExpr {
                                object: get_expr.object,
                                name: get_expr.name,
                                value: Box::new(value),
                            },
                        ),
                    );
                },
                other => {
                    let e = error_at(&equals, "Invalid assignment target.");
                    self.note(e);
                    return Ok(other);
                },
            }
        }
        Ok(expr)
    }

    fn expression(&mut self) -> (r: Result<Expr, LoxErr>)
        requires
            old(self).wf(),
        ensures
            final(self).has_read(
                old(self),
                expr_result(r),
                grammar::expression(old(self).ts(), old(self).cursor()),
            ),
        decreases old(self).tokens@.len() - old(self).current, 21nat, 0nat,
    {
        self.assignment()
    }

    /// An expression and the semicolon behind it.
    fn expression_then_semicolon(&mut self, message: &str) -> (r: Result<Expr, LoxErr>)
        requires
            old(self).wf(),
        ensures
            final(self).has_read(
                old(self),
                expr_result(r),
                grammar::expression_then_semicolon(old(self).ts(), old(self).cursor(), message@),
            ),
        decreases old(self).tokens@.len() - old(self).current, 22nat, 0nat,
    {
        let value = self.expression()?;
        self.consume(TokenType::Semicolon, message)?;
        Ok(value)
    }

    fn expression_statement(&mut self) -> (r: Result<Stmt, LoxErr>)
        requires
            old(self).wf(),
        ensures
            final(self).has_read(
                old(self),
                stmt_result(r),
                grammar::expression_statement(old(self).ts(), old(self).cursor()),
            ),
        decreases old(self).tokens@.len() - old(self).current, 23nat, 0nat,
    {
        let expr = self.expression_then_semicolon("Expect ';' after value.")?;
        Ok(Stmt::Expression { expression: expr })
    }

    fn print_statement(&mut self) -> (r: Result<Stmt, LoxErr>)
        requires
            old(self).wf(),
        ensures
            final(self).has_read(
                old(self),
                stmt_result(r),
                grammar::print_statement(old(self).ts(), old(self).cursor()),
            ),
        decreases old(self).tokens@.len() - old(self).current, 23nat, 0nat,
    {
        let value = self.expression_then_semicolon("Expect ';' after value.")?;
        Ok(Stmt::Print { expression: value })
    }

    /// Reads a return statement; the parser stands behind `return`.
    fn return_statement(&mut self) -> (r: Result<Stmt, LoxErr>)
        requires
            old(self).wf(),
            old(self).current >= 1,
        ensures
            final(self).has_read(
                old(self),
                stmt_result(r),
                grammar::return_statement(
                    old(self).ts(),
                    old(self).cursor(),
                    old(self).ts()[old(self).current - 1],
                ),
            ),
        decreases old(self).tokens@.len() - old(self).current, 23nat, 0nat,
    {
        let keyword = self.previous().clone();
        if self.matches(TokenType::Semicolon) {
            return Ok(Stmt::Return { keyword: keyword, value: None });
        }
        let value = self.expression_then_semicolon("Expect ';' after return value.")?;
        Ok(Stmt::Return { keyword: keyword, value: Some(value) })
    }

    fn var_declaration(&mut self) -> (r: Result<Stmt, LoxErr>)
        requires
            old(self).wf(),
        ensures
            final(self).has_read(
                old(self),
                stmt_result(r),
                grammar::var_declaration(old(self).ts(), old(self).cursor()),
            ),
        decreases old(self).tokens@.len() - old(self).current, 23nat, 0nat,
    {
        let name = self.consume(TokenType::Identifier, "Expect variable name.")?;
        if self.matches(TokenType::Equal) {
            let value = self.expression_then_semicolon("Expect ';' after variable declaration.")?;
            return Ok(Stmt::Var { name: name, initializer: Some(value) });
        }
        self.consume(TokenType::Semicolon, "Expect ';' after variable declaration.")?;
        Ok(Stmt::Var { name: name, initializer: None })
    }

    /// A condition in parentheses.
    fn condition(&mut self, opening: &str, closing: &str) -> (r: Result<Expr, LoxErr>)
        requires
            old(self).wf(),
        ensures
            final(self).has_read(
                old(self),
                expr_result(r),
                grammar::condition(old(self).ts(), old(self).cursor(), opening@, closing@),
            ),
        decreases old(self).tokens@.len() - old(self).current, 23nat, 0nat,
    {
        self.consume(TokenType::LeftParen, opening)?;
        let value = self.expression()?;
        self.consume(TokenType::RightParen, closing)?;
        Ok(value)
    }

    fn if_statement(&mut self) -> (r: Result<Stmt, LoxErr>)
        requires
            old(self).wf(),
        ensures
            final(self).has_read(
                old(self),
                stmt_result(r),
                grammar::if_statement(old(self).ts(), old(self).cursor()),
            ),
        decreases old(self).tokens@.len() - old(self).current, 24nat, 0nat,
    {
        let condition = self.condition("Expect '(' after 'if'.", "Expect ')' after if condition.")?;
        let then_branch = Box::new(self.statement()?);
        let else_branch = if self.matches(TokenType::Else) {
            Some(Box::new(self.statement()?))
        } else {
            None
        };
        Ok(Stmt::If { condition: condition, then_branch: then_branch, else_branch: else_branch })
    }

    fn while_statement(&mut self) -> (r: Result<Stmt, LoxErr>)
        requires
            old(self).wf(),
        ensures
            final(self).has_read(
                old(self),
                stmt_result(r),
                grammar::while_statement(old(self).ts(), old(self).cursor()),
            ),
        decreases old(self).tokens@.len() - old(self).current, 24nat, 0nat,
    {
        let condition = self.condition("Expect '(' after 'while'.", "Expect ')' after condition.")?;
        let body = Box::new(self.statement()?);
        Ok(Stmt::While { condition: condition, body: body })
    }

    fn for_initializer(&mut self) -> (r: Result<Option<Stmt>, LoxErr>)
        requires
            old(self).wf(),
        ensures
            final(self).has_read(
                old(self),
                optional_stmt_result(r),
                grammar::for_initializer(old(self).ts(), old(self).cursor()),
            ),
        decreases old(self).tokens@.len() - old(self).current, 24nat, 0nat,
    {
        if self.matches(TokenType::Semicolon) {
            Ok(None)
        } else if self.matches(TokenType::Var) {
            Ok(Some(self.var_declaration()?))
        } else {
            Ok(Some(self.expression_statement()?))
        }
    }

    fn for_condition(&mut self) -> (r: Result<Expr, LoxErr>)
        requires
            old(self).wf(),
        ensures
            final(self).has_read(
                old(self),
                expr_result(r),
                grammar::for_condition(old(self).ts(), old(self).cursor()),
            ),
        decreases old(self).tokens@.len() - old(self).current, 24nat, 0nat,
    {
        if self.matches(TokenType::Semicolon) {
            Ok(Expr::Literal(LiteralExpr::new(Object::Bool(true))))
        } else {
            self.expression_then_semicolon("Expect ';' after loop condition.")
        }
    }

    fn for_increment(&mut self) -> (r: Result<Option<Expr>, LoxErr>)
        requires
            old(self).wf(),
        ensures
            final(self).has_read(
                old(self),
                optional_expr_result(r),
                grammar::for_increment(old(self).ts(), old(self).cursor()),
            ),
        decreases old(self).tokens@.len() - old(self).current, 24nat, 0nat,
    {
        if self.matches(TokenType::RightParen) {
            return Ok(None);
        }
        let value = self.expression()?;
        self.consume(TokenType::RightParen, "Expect ')' after for clauses.")?;
        Ok(Some(value))
    }

    /// Reads a `for` and gives the `while` that it stands for.
    #[verifier::rlimit(40)]
    fn for_statement(&mut self) -> (r: Result<Stmt, LoxErr>)
        requires
            old(self).wf(),
        ensures
            final(self).has_read(
                old(self),
                stmt_result(r),
                grammar::for_statement(old(self).ts(), old(self).cursor()),
            ),
        decreases old(self).tokens@.len() - old(self).current, 25nat, 0nat,
    {
        self.consume(TokenType::LeftParen, "Expect '(' after 'for'.")?;
        let initializer = self.for_initializer()?;
        let condition = self.for_condition()?;
        let increment = self.for_increment()?;
        let body = self.statement()?;
        Ok(desugar_for(initializer, condition, increment, body))
    }

    /// Reads the declarations of a block and its closing brace; the parser
    /// stands behind the opening brace.
    fn block(&mut self) -> (r: Result<Vec<Stmt>, LoxErr>)
        requires
            old(self).wf(),
        ensures
            final(self).has_read(
                old(self),
                stmts_result(r),
                grammar::block(old(self).ts(), old(self).cursor(), Seq::empty()),
            ),
        decreases old(self).tokens@.len() - old(self).current, 41nat, 0nat,
    {
        let mut statements: Vec<Stmt> = Vec::new();
        assert(stmts_view(statements@) =~= Seq::<StmtView>::empty());
        while !self.check(TokenType::RightBrace) && !self.is_at_end()
            invariant
                self.follows(old(self)),
                grammar::block(old(self).ts(), old(self).cursor(), Seq::empty()) == grammar::block(
                    self.ts(),
                    self.cursor(),
                    stmts_view(statements@),
                ),
            decreases self.tokens@.len() - self.current,
        {
            let next = self.declaration()?;
            proof {
                lemma_stmts_push(statements@, next);
            }
            statements.push(next);
        }
        self.consume(TokenType::RightBrace, "Expect '}' after block.")?;
        Ok(statements)
    }

    fn statement(&mut self) -> (r: Result<Stmt, LoxErr>)
        requires
            old(self).wf(),
        ensures
            final(self).has_read(
                old(self),
                stmt_result(r),
                grammar::statement(old(self).ts(), old(self).cursor()),
            ),
        decreases old(self).tokens@.len() - old(self).current, 30nat, 0nat,
    {
        if self.matches(TokenType::If) {
            self.if_statement()
        } else if self.matches(TokenType::Print) {
            self.print_statement()
        } else if self.matches(TokenType::Return) {
            self.return_statement()
        } else if self.matches(TokenType::While) {
            self.while_statement()
        } else if self.matches(TokenType::For) {
            self.for_statement()
        } else if self.matches(TokenType::LeftBrace) {
            Ok(Stmt::Block { statements: self.block()? })
        } else {
            self.expression_statement()
        }
    }

    /// Reads a function or a method: name, parameters and body. `kind` is
    /// the word that the diagnostics use for it.
    #[verifier::loop_isolation(false)]
    fn function(&mut self, kind: &str) -> (r: Result<FunctionDeclaration, LoxErr>)
        requires
            old(self).wf(),
        ensures
            final(self).has_read(
                old(self),
                function_result(r),
                grammar::function(old(self).ts(), old(self).cursor(), kind@),
            ),
        decreases old(self).tokens@.len() - old(self).current, 42nat, 0nat,
    {
        let mut expect_name = String::from_str("Expect ");
        expect_name.append(kind);
        expect_name.append(" name.");
        let mut expect_paren = String::from_str("Expect '(' after ");
        expect_paren.append(kind);
        expect_paren.append(" name.");
        let mut expect_body = String::from_str("Expect '{' before ");
        expect_body.append(kind);
        expect_body.append(" body.");
        let name = self.consume(TokenType::Identifier, expect_name.as_str())?;
        self.consume(TokenType::LeftParen, expect_paren.as_str())?;
        let ghost opened = self.cursor();
        let mut parameters: Vec<Token> = Vec::new();
        let mut more = !self.check(TokenType::RightParen);
        let ghost total = if more {
            grammar::parameters(self.ts(), self.cursor(), Seq::empty())
        } else {
            grammar::accept(Seq::<TokenView>::empty(), self.cursor())
        };
        assert(tokens_view(parameters@) =~= Seq::<TokenView>::empty());
        while more
            invariant
                self.follows(old(self)),
                self.current >= opened.pos,
                self.current > old(self).current,
                total == if grammar::check(old(self).ts(), opened.pos, TokenType::RightParen) {
                    grammar::accept(Seq::<TokenView>::empty(), opened)
                } else {
                    grammar::parameters(old(self).ts(), opened, Seq::empty())
                },
                more ==> total == grammar::parameters(
                    self.ts(),
                    self.cursor(),
                    tokens_view(parameters@),
                ),
                !more ==> total == grammar::accept(tokens_view(parameters@), self.cursor()),
            decreases self.tokens@.len() - self.current,
        {
            assert(tokens_view(parameters@).len() == parameters@.len());
            if parameters.len() >= 255 {
                let e = error_at(self.peek(), "Can't have more than 255 parameters.");
                self.note(e);
            }
            let parameter = self.consume(TokenType::Identifier, "Expect parameter name.")?;
            proof {
                lemma_tokens_push(parameters@, parameter);
            }
            parameters.push(parameter);
            more = self.matches(TokenType::Comma);
        }
        self.consume(TokenType::RightParen, "Expect ')' after parameters.")?;
        self.consume(TokenType::LeftBrace, expect_body.as_str())?;
        let body = self.block()?;
        Ok(FunctionDeclaration { name: name, params: parameters, body: body })
    }

    /// Reads a function declaration; the parser stands behind `fun`. From the
    /// 256th parameter on, each is reported in `errors`, and the list goes on.
    pub fn function_declaration(&mut self, kind: &str) -> (r: Result<Stmt, LoxErr>)
        requires
            old(self).wf(),
        ensures
            final(self).has_read(
                old(self),
                stmt_result(r),
                grammar::function_declaration(old(self).ts(), old(self).cursor(), kind@),
            ),
        decreases old(self).tokens@.len() - old(self).current, 43nat, 0nat,
    {
        let function_declaration = self.function(kind)?;
        Ok(Stmt::FunctionDeclaration { function_declaration })
    }

    /// Reads a class declaration; the parser stands behind `class`.
    #[verifier::loop_isolation(false)]
    fn class_declaration(&mut self) -> (r: Result<Stmt, LoxErr>)
        requires
            old(self).wf(),
        ensures
            final(self).has_read(
                old(self),
                stmt_result(r),
                grammar::class_declaration(old(self).ts(), old(self).cursor()),
            ),
        decreases old(self).tokens@.len() - old(self).current, 44nat, 0nat,
    {
        let name = self.consume(TokenType::Identifier, "Expect class name.")?;
        let superclass = if self.matches(TokenType::Less) {
            let parent = self.consume(TokenType::Identifier, "Expect superclass name.")?;
            Some(VariableExpr::new(parent))
        } else {
            None
        };
        self.consume(TokenType::LeftBrace, "Expect '{' before class body.")?;
        let ghost opened = self.cursor();
        let mut methods: Vec<FunctionDeclaration> = Vec::new();
        assert(functions_view(methods@) =~= Seq::<FunctionView>::empty());
        while !self.check(TokenType::RightBrace) && !self.is_at_end()
            invariant
                self.follows(old(self)),
                self.current >= opened.pos,
                self.current > old(self).current,
                grammar::methods(old(self).ts(), opened, Seq::empty()) == grammar::methods(
                    self.ts(),
                    self.cursor(),
                    functions_view(methods@),
                ),
            decreases self.tokens@.len() - self.current,
        {
            let method = self.function("method")?;
            proof {
                lemma_functions_push(methods@, method);
            }
            methods.push(method);
        }
        self.consume(TokenType::RightBrace, "Expect '}' after class body.")?;
        Ok(
            Stmt::ClassDeclaration {
                class_declaration: ClassDeclaration {
                    name: name,
                    superclass: superclass,
                    methods: methods,
                },
            },
        )
    }

    fn declaration(&mut self) -> (r: Result<Stmt, LoxErr>)
        requires
            old(self).wf(),
        ensures
            final(self).has_read(
                old(self),
                stmt_result(r),
                grammar::declaration(old(self).ts(), old(self).cursor()),
            ),
        decreases old(self).tokens@.len() - old(self).current, 40nat, 0nat,
    {
        if self.matches(TokenType::Var) {
            self.var_declaration()
        } else if self.matches(TokenType::Fun) {
            self.function_declaration("function")
        } else if self.matches(TokenType::Class) {
            self.class_declaration()
        } else {
            self.statement()
        }
    }

    /// Skips to where the next statement is likely to begin.
    fn synchronize(&mut self)
        requires
            old(self).wf(),
        ensures
            final(self).follows(old(self)),
            final(self).errors == old(self).errors,
            final(self).current as int == grammar::synchronized(
                old(self).ts(),
                old(self).current as int,
            ),
            old(self).ts()[old(self).current as int].token_type != TokenType::Eof
                ==> final(self).current > old(self).current,
    {
        if self.is_at_end() {
            return ;
        }
        self.advance();
        while !self.is_at_end()
            invariant
                self.follows(old(self)),
                self.errors == old(self).errors,
                self.current > old(self).current,
                grammar::synchronized(old(self).ts(), old(self).current as int)
                    == grammar::resume_from(self.ts(), self.current as int),
            decreases self.tokens@.len() - self.current,
        {
            if self.previous().token_type == TokenType::Semicolon {
                return ;
            }
            match self.peek().token_type {
                TokenType::Class
                | TokenType::Fun
                | TokenType::Var
                | TokenType::For
                | TokenType::If
                | TokenType::While
                | TokenType::Print
                | TokenType::Return => {
                    return ;
                },
                _ => {},
            }
            self.advance();
        }
    }

    /// Reads the declarations up to the end of file. A declaration that fails
    /// is reported in `errors` and left out, and the parser goes on behind it.
    #[verifier::rlimit(60)]
    pub fn parse(&mut self) -> (statements: Vec<Stmt>)
        requires
            old(self).wf(),
        ensures
            final(self).follows(old(self)),
            final(self).ts()[final(self).current as int].token_type == TokenType::Eof,
            (grammar::Program {
                statements: stmts_view(statements@),
                errors: errors_view(final(self).errors@),
            }) == grammar::program_rest(old(self).ts(), old(self).cursor(), Seq::empty()),
    {
        let mut statements: Vec<Stmt> = Vec::new();
        assert(stmts_view(statements@) =~= Seq::<StmtView>::empty());
        while !self.is_at_end()
            invariant
                self.follows(old(self)),
                grammar::program_rest(old(self).ts(), old(self).cursor(), Seq::empty())
                    == grammar::program_rest(self.ts(), self.cursor(), stmts_view(statements@)),
            decreases self.tokens@.len() - self.current,
        {
            match self.declaration() {
                Ok(stmt) => {
                    proof {
                        lemma_stmts_push(statements@, stmt);
                    }
                    statements.push(stmt);
                },
                Err(lox_err) => {
                    proof {
                        lemma_errors_push(self.errors@, lox_err);
                    }
                    self.errors.push(lox_err);
                    self.synchronize();
                },
            }
        }
        statements
    }
}

} // verus!
