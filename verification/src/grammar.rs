//! The grammar of Lox, written as functions from a token sequence and a
//! position in it to a syntax tree and the position behind it.
//!
//! ```text
//! program     -> declaration* EOF
//! declaration -> classDecl | funDecl | varDecl | statement
//! classDecl   -> "class" IDENT ("<" IDENT)? "{" function* "}"
//! funDecl     -> "fun" function
//! function    -> IDENT "(" params? ")" block
//! varDecl     -> "var" IDENT ("=" expression)? ";"
//! statement   -> exprStmt | forStmt | ifStmt | printStmt | returnStmt | whileStmt | block
//! block       -> "{" declaration* "}"
//! expression  -> assignment
//! assignment  -> (call ".")? IDENT "=" assignment | logicOr
//! logicOr     -> logicAnd ("or" logicAnd)*
//! logicAnd    -> equality ("and" equality)*
//! equality    -> comparison (("!="|"==") comparison)*
//! comparison  -> term ((">"|">="|"<"|"<=") term)*
//! term        -> factor (("-"|"+") factor)*
//! factor      -> unary (("/"|"*") unary)*
//! unary       -> ("!"|"-") unary | call
//! call        -> primary ( "(" args? ")" | "." IDENT )*
//! primary     -> "true"|"false"|"nil"|"this"|NUMBER|STRING|IDENT
//!              | "(" expression ")" | "super" "." IDENT
//! ```
use vstd::prelude::*;
use crate::err::LoxErrView;
use crate::expr::{ExprView, VariableView};
use crate::object::ObjectView;
use crate::stmt::{ClassView, FunctionView, StmtView};
use crate::token::TokenView;
use crate::token_type::TokenType;

verus! {

/// Where a parse stands: the position of the next token, and the diagnostics
/// reported so far.
pub struct Cursor {
    pub pos: int,
    pub notes: Seq<LoxErrView>,
}

/// What a grammar function gives: a tree or a failure, and where the parse
/// stands after it.
pub struct Parsed<T> {
    pub result: Result<T, LoxErrView>,
    pub cursor: Cursor,
}

/// At most this many parameters or arguments go unreported.
pub const MAX_ARITY: usize = 255;

/// A token sequence that a parser accepts: not empty, and ended by an
/// end-of-file token.
pub open spec fn terminated(ts: Seq<TokenView>) -> bool {
    ts.len() > 0 && ts.last().token_type == TokenType::Eof
}

/// Is the token at `pos` of the kind `kind`? The end-of-file token is of no kind.
pub open spec fn check(ts: Seq<TokenView>, pos: int, kind: TokenType) -> bool {
    0 <= pos < ts.len() && ts[pos].token_type != TokenType::Eof && ts[pos].token_type == kind
}

/// How a diagnostic names a token: `end` at the end of file, the lexeme in
/// single quotes elsewhere.
pub open spec fn token_name(t: TokenView) -> Seq<char> {
    if t.token_type == TokenType::Eof {
        "end"@
    } else {
        "'"@ + t.lexeme + "'"@
    }
}

/// The diagnostic `message` at the token `t`.
pub open spec fn error_at(t: TokenView, message: Seq<char>) -> LoxErrView {
    LoxErrView::Parse { line: t.line, lexeme: token_name(t), message }
}

/// A tree, and the parse standing at `cursor`.
pub open spec fn accept<T>(value: T, cursor: Cursor) -> Parsed<T> {
    Parsed { result: Ok(value), cursor }
}

/// A failure, and the parse standing at `cursor`.
pub open spec fn reject<T>(error: LoxErrView, cursor: Cursor) -> Parsed<T> {
    Parsed { result: Err(error), cursor }
}

/// The cursor one token further.
pub open spec fn step(cursor: Cursor) -> Cursor {
    Cursor { pos: cursor.pos + 1, notes: cursor.notes }
}

/// The cursor with one more diagnostic.
pub open spec fn noted(cursor: Cursor, error: LoxErrView) -> Cursor {
    Cursor { pos: cursor.pos, notes: cursor.notes.push(error) }
}

/// The failure of a parse that stands outside the tokens. It does not arise
/// on a sequence that ends with an end-of-file token, which no parse steps
/// over.
pub open spec fn adrift<T>(cursor: Cursor) -> Parsed<T> {
    reject(LoxErrView::Parse { line: 0, lexeme: "end"@, message: "Expect token."@ }, cursor)
}

/// Did the part `a`, begun at `from`, fail? A part that succeeds has
/// consumed a token and stands before the end of the sequence.
pub open spec fn halted<T>(ts: Seq<TokenView>, from: Cursor, a: Parsed<T>) -> bool {
    a.result is Err || !(from.pos < a.cursor.pos < ts.len())
}

/// The failure of a halted part, handed on.
pub open spec fn handed_on<T, U>(a: Parsed<T>) -> Parsed<U> {
    match a.result {
        Err(e) => reject(e, a.cursor),
        Ok(_) => adrift(a.cursor),
    }
}

/// A token of the kind `kind` is expected at the cursor: the parse steps over
/// it, or fails there with `message`.
pub open spec fn consume(
    ts: Seq<TokenView>,
    cursor: Cursor,
    kind: TokenType,
    message: Seq<char>,
) -> Parsed<TokenView> {
    if check(ts, cursor.pos, kind) {
        accept(ts[cursor.pos], step(cursor))
    } else {
        reject(error_at(ts[cursor.pos], message), cursor)
    }
}

/// The binary levels of the grammar, from the tightest to the loosest:
/// 1 factor, 2 term, 3 comparison, 4 equality, 5 `and`, 6 `or`.
pub open spec fn level_operator(level: nat, kind: TokenType) -> bool {
    if level == 1 {
        kind == TokenType::Slash || kind == TokenType::Star
    } else if level == 2 {
        kind == TokenType::Minus || kind == TokenType::Plus
    } else if level == 3 {
        kind == TokenType::Greater || kind == TokenType::GreaterEqual || kind == TokenType::Less
            || kind == TokenType::LessEqual
    } else if level == 4 {
        kind == TokenType::BangEqual || kind == TokenType::EqualEqual
    } else if level == 5 {
        kind == TokenType::And
    } else {
        kind == TokenType::Or
    }
}

/// The node of `left operator right` at a level: a short-circuit node for
/// `and` and `or`, a binary node below them.
pub open spec fn joined(level: nat, left: ExprView, operator: TokenView, right: ExprView) -> ExprView {
    if level >= 5 {
        ExprView::Logical { left: Box::new(left), operator, right: Box::new(right) }
    } else {
        ExprView::Binary { left: Box::new(left), operator, right: Box::new(right) }
    }
}

/// `primary`.
pub open spec fn primary(ts: Seq<TokenView>, cursor: Cursor) -> Parsed<ExprView>
    decreases ts.len() - cursor.pos, 0nat, 0nat,
{
    if !(0 <= cursor.pos < ts.len()) {
        adrift(cursor)
    } else {
        let t = ts[cursor.pos];
        match t.token_type {
            TokenType::False
            | TokenType::True
            | TokenType::Nil
            | TokenType::Number
            | TokenType::String => accept(ExprView::Literal { literal: t.literal }, step(cursor)),
            TokenType::This => accept(ExprView::This { keyword: t, distance: None }, step(cursor)),
            TokenType::Super => {
                let dot = consume(ts, step(cursor), TokenType::Dot, "Expect '.' after 'super'."@);
                if dot.result is Err {
                    handed_on(dot)
                } else {
                    let method = consume(
                        ts,
                        dot.cursor,
                        TokenType::Identifier,
                        "Expect superclass method name."@,
                    );
                    match method.result {
                        Err(e) => reject(e, method.cursor),
                        Ok(m) => accept(
                            ExprView::Super { keyword: t, method: m, distance: None },
                            method.cursor,
                        ),
                    }
                }
            },
            TokenType::Identifier => accept(
                ExprView::Variable(VariableView { name: t, distance: None }),
                step(cursor),
            ),
            TokenType::LeftParen => {
                let inner = expression(ts, step(cursor));
                if halted(ts, step(cursor), inner) {
                    handed_on(inner)
                } else {
                    let close = consume(
                        ts,
                        inner.cursor,
                        TokenType::RightParen,
                        "Expect ')' after expression."@,
                    );
                    match close.result {
                        Err(e) => reject(e, close.cursor),
                        Ok(_) => accept(
                            ExprView::Grouping { expression: Box::new(inner.result->Ok_0) },
                            close.cursor,
                        ),
                    }
                }
            },
            _ => reject(error_at(t, "Expect expression."@), cursor),
        }
    }
}

/// The arguments of a call after those in `sofar`, up to the closing
/// parenthesis. From the 256th on, each is reported where it begins, and the
/// list goes on.
pub open spec fn arguments(ts: Seq<TokenView>, cursor: Cursor, sofar: Seq<ExprView>) -> Parsed<
    Seq<ExprView>,
>
    decreases ts.len() - cursor.pos, 30nat, 0nat,
{
    if !(0 <= cursor.pos < ts.len()) {
        adrift(cursor)
    } else {
        let here = if sofar.len() >= MAX_ARITY {
            noted(cursor, error_at(ts[cursor.pos], "Can't have more than 255 arguments."@))
        } else {
            cursor
        };
        let argument = expression(ts, here);
        if halted(ts, here, argument) {
            handed_on(argument)
        } else if check(ts, argument.cursor.pos, TokenType::Comma) {
            arguments(ts, step(argument.cursor), sofar.push(argument.result->Ok_0))
        } else {
            accept(sofar.push(argument.result->Ok_0), argument.cursor)
        }
    }
}

/// A call after its opening parenthesis: the arguments and the closing
/// parenthesis.
pub open spec fn finish_call(ts: Seq<TokenView>, cursor: Cursor, callee: ExprView) -> Parsed<ExprView>
    decreases ts.len() - cursor.pos, 31nat, 0nat,
{
    let args = if check(ts, cursor.pos, TokenType::RightParen) {
        accept(Seq::<ExprView>::empty(), cursor)
    } else {
        arguments(ts, cursor, Seq::empty())
    };
    if args.result is Err || !(cursor.pos <= args.cursor.pos < ts.len()) {
        handed_on(args)
    } else {
        let close = consume(ts, args.cursor, TokenType::RightParen, "Expect ')' after arguments."@);
        match close.result {
            Err(e) => reject(e, close.cursor),
            Ok(paren) => accept(
                ExprView::Call { callee: Box::new(callee), paren, arguments: args.result->Ok_0 },
                close.cursor,
            ),
        }
    }
}

/// What follows a primary: calls and property reads, as many as there are.
pub open spec fn call_rest(ts: Seq<TokenView>, cursor: Cursor, sofar: ExprView) -> Parsed<ExprView>
    decreases ts.len() - cursor.pos, 0nat, 0nat,
{
    if check(ts, cursor.pos, TokenType::LeftParen) {
        let made = finish_call(ts, step(cursor), sofar);
        if halted(ts, step(cursor), made) {
            handed_on(made)
        } else {
            call_rest(ts, made.cursor, made.result->Ok_0)
        }
    } else if check(ts, cursor.pos, TokenType::Dot) {
        let name = consume(
            ts,
            step(cursor),
            TokenType::Identifier,
            "Expect property name after '.'."@,
        );
        match name.result {
            Err(e) => reject(e, name.cursor),
            Ok(n) => call_rest(ts, name.cursor, ExprView::Get { object: Box::new(sofar), name: n }),
        }
    } else {
        accept(sofar, cursor)
    }
}

/// `call`.
pub open spec fn call(ts: Seq<TokenView>, cursor: Cursor) -> Parsed<ExprView>
    decreases ts.len() - cursor.pos, 1nat, 0nat,
{
    let first = primary(ts, cursor);
    if halted(ts, cursor, first) {
        handed_on(first)
    } else {
        call_rest(ts, first.cursor, first.result->Ok_0)
    }
}

/// `unary`.
pub open spec fn unary(ts: Seq<TokenView>, cursor: Cursor) -> Parsed<ExprView>
    decreases ts.len() - cursor.pos, 2nat, 0nat,
{
    if check(ts, cursor.pos, TokenType::Bang) || check(ts, cursor.pos, TokenType::Minus) {
        let right = unary(ts, step(cursor));
        match right.result {
            Err(e) => reject(e, right.cursor),
            Ok(r) => accept(
                ExprView::Unary { operator: ts[cursor.pos], right: Box::new(r) },
                right.cursor,
            ),
        }
    } else {
        call(ts, cursor)
    }
}

/// An operand of the binary level `level`: a unary expression at the first
/// level, a chain of the level below at the others.
pub open spec fn operand(ts: Seq<TokenView>, cursor: Cursor, level: nat) -> Parsed<ExprView>
    decreases ts.len() - cursor.pos, 3nat + level, 0nat,
{
    if level <= 1 {
        unary(ts, cursor)
    } else {
        chain(ts, cursor, (level - 1) as nat)
    }
}

/// The operators and operands that follow the first operand of a level; the
/// chain leans to the left.
pub open spec fn chain_rest(ts: Seq<TokenView>, cursor: Cursor, level: nat, left: ExprView) -> Parsed<
    ExprView,
>
    decreases ts.len() - cursor.pos, 0nat, 0nat,
{
    if 0 <= cursor.pos < ts.len() && ts[cursor.pos].token_type != TokenType::Eof && level_operator(
        level,
        ts[cursor.pos].token_type,
    ) {
        let right = operand(ts, step(cursor), level);
        if halted(ts, step(cursor), right) {
            handed_on(right)
        } else {
            chain_rest(
                ts,
                right.cursor,
                level,
                joined(level, left, ts[cursor.pos], right.result->Ok_0),
            )
        }
    } else {
        accept(left, cursor)
    }
}

/// The binary level `level`: an operand, then operators of the level with
/// their operands.
pub open spec fn chain(ts: Seq<TokenView>, cursor: Cursor, level: nat) -> Parsed<ExprView>
    decreases ts.len() - cursor.pos, 3nat + level, 1nat,
{
    let first = operand(ts, cursor, level);
    if halted(ts, cursor, first) {
        handed_on(first)
    } else {
        chain_rest(ts, first.cursor, level, first.result->Ok_0)
    }
}

/// `assignment`. A target that is neither a variable nor a property is
/// reported, and the left side stands for the whole.
pub open spec fn assignment(ts: Seq<TokenView>, cursor: Cursor) -> Parsed<ExprView>
    decreases ts.len() - cursor.pos, 20nat, 0nat,
{
    let left = chain(ts, cursor, 6);
    if halted(ts, cursor, left) {
        handed_on(left)
    } else if check(ts, left.cursor.pos, TokenType::Equal) {
        let equals = ts[left.cursor.pos];
        let value = assignment(ts, step(left.cursor));
        match value.result {
            Err(e) => reject(e, value.cursor),
            Ok(v) => match left.result->Ok_0 {
                ExprView::Variable(variable) => accept(
                    ExprView::Assign { name: variable.name, value: Box::new(v), distance: None },
                    value.cursor,
                ),
                ExprView::Get { object, name } => accept(
                    ExprView::SetField { object, name, value: Box::new(v) },
                    value.cursor,
                ),
                other => accept(
                    other,
                    noted(value.cursor, error_at(equals, "Invalid assignment target."@)),
                ),
            },
        }
    } else {
        left
    }
}

/// `expression`.
pub open spec fn expression(ts: Seq<TokenView>, cursor: Cursor) -> Parsed<ExprView>
    decreases ts.len() - cursor.pos, 21nat, 0nat,
{
    assignment(ts, cursor)
}

/// An expression and the semicolon behind it.
pub open spec fn expression_then_semicolon(
    ts: Seq<TokenView>,
    cursor: Cursor,
    message: Seq<char>,
) -> Parsed<ExprView>
    decreases ts.len() - cursor.pos, 22nat, 0nat,
{
    let value = expression(ts, cursor);
    if halted(ts, cursor, value) {
        handed_on(value)
    } else {
        let end = consume(ts, value.cursor, TokenType::Semicolon, message);
        match end.result {
            Err(e) => reject(e, end.cursor),
            Ok(_) => accept(value.result->Ok_0, end.cursor),
        }
    }
}

/// An expression statement.
pub open spec fn expression_statement(ts: Seq<TokenView>, cursor: Cursor) -> Parsed<StmtView>
    decreases ts.len() - cursor.pos, 23nat, 0nat,
{
    let value = expression_then_semicolon(ts, cursor, "Expect ';' after value."@);
    match value.result {
        Err(e) => reject(e, value.cursor),
        Ok(e) => accept(StmtView::Expression { expression: e }, value.cursor),
    }
}

/// A print statement after `print`.
pub open spec fn print_statement(ts: Seq<TokenView>, cursor: Cursor) -> Parsed<StmtView>
    decreases ts.len() - cursor.pos, 23nat, 0nat,
{
    let value = expression_then_semicolon(ts, cursor, "Expect ';' after value."@);
    match value.result {
        Err(e) => reject(e, value.cursor),
        Ok(e) => accept(StmtView::Print { expression: e }, value.cursor),
    }
}

/// A return statement after `return`; `keyword` is that token.
pub open spec fn return_statement(ts: Seq<TokenView>, cursor: Cursor, keyword: TokenView) -> Parsed<
    StmtView,
>
    decreases ts.len() - cursor.pos, 23nat, 0nat,
{
    if check(ts, cursor.pos, TokenType::Semicolon) {
        accept(StmtView::Return { keyword, value: None }, step(cursor))
    } else {
        let value = expression_then_semicolon(ts, cursor, "Expect ';' after return value."@);
        match value.result {
            Err(e) => reject(e, value.cursor),
            Ok(e) => accept(StmtView::Return { keyword, value: Some(e) }, value.cursor),
        }
    }
}

/// A variable declaration after `var`.
pub open spec fn var_declaration(ts: Seq<TokenView>, cursor: Cursor) -> Parsed<StmtView>
    decreases ts.len() - cursor.pos, 23nat, 0nat,
{
    let name = consume(ts, cursor, TokenType::Identifier, "Expect variable name."@);
    if name.result is Err {
        handed_on(name)
    } else if check(ts, name.cursor.pos, TokenType::Equal) {
        let value = expression_then_semicolon(
            ts,
            step(name.cursor),
            "Expect ';' after variable declaration."@,
        );
        match value.result {
            Err(e) => reject(e, value.cursor),
            Ok(e) => accept(
                StmtView::Var { name: name.result->Ok_0, initializer: Some(e) },
                value.cursor,
            ),
        }
    } else {
        let end = consume(
            ts,
            name.cursor,
            TokenType::Semicolon,
            "Expect ';' after variable declaration."@,
        );
        match end.result {
            Err(e) => reject(e, end.cursor),
            Ok(_) => accept(StmtView::Var { name: name.result->Ok_0, initializer: None }, end.cursor),
        }
    }
}

/// A condition in parentheses; `opening` and `closing` are the messages for a
/// missing parenthesis.
pub open spec fn condition(
    ts: Seq<TokenView>,
    cursor: Cursor,
    opening: Seq<char>,
    closing: Seq<char>,
) -> Parsed<ExprView>
    decreases ts.len() - cursor.pos, 23nat, 0nat,
{
    let open = consume(ts, cursor, TokenType::LeftParen, opening);
    if open.result is Err {
        handed_on(open)
    } else {
        let value = expression(ts, open.cursor);
        if halted(ts, open.cursor, value) {
            handed_on(value)
        } else {
            let close = consume(ts, value.cursor, TokenType::RightParen, closing);
            match close.result {
                Err(e) => reject(e, close.cursor),
                Ok(_) => accept(value.result->Ok_0, close.cursor),
            }
        }
    }
}

/// An if statement after `if`.
pub open spec fn if_statement(ts: Seq<TokenView>, cursor: Cursor) -> Parsed<StmtView>
    decreases ts.len() - cursor.pos, 24nat, 0nat,
{
    let test = condition(ts, cursor, "Expect '(' after 'if'."@, "Expect ')' after if condition."@);
    if halted(ts, cursor, test) {
        handed_on(test)
    } else {
        let then_branch = statement(ts, test.cursor);
        if halted(ts, test.cursor, then_branch) {
            handed_on(then_branch)
        } else if check(ts, then_branch.cursor.pos, TokenType::Else) {
            let else_branch = statement(ts, step(then_branch.cursor));
            match else_branch.result {
                Err(e) => reject(e, else_branch.cursor),
                Ok(other) => accept(
                    StmtView::If {
                        condition: test.result->Ok_0,
                        then_branch: Box::new(then_branch.result->Ok_0),
                        else_branch: Some(Box::new(other)),
                    },
                    else_branch.cursor,
                ),
            }
        } else {
            accept(
                StmtView::If {
                    condition: test.result->Ok_0,
                    then_branch: Box::new(then_branch.result->Ok_0),
                    else_branch: None,
                },
                then_branch.cursor,
            )
        }
    }
}

/// A while statement after `while`.
pub open spec fn while_statement(ts: Seq<TokenView>, cursor: Cursor) -> Parsed<StmtView>
    decreases ts.len() - cursor.pos, 24nat, 0nat,
{
    let test = condition(ts, cursor, "Expect '(' after 'while'."@, "Expect ')' after condition."@);
    if halted(ts, cursor, test) {
        handed_on(test)
    } else {
        let body = statement(ts, test.cursor);
        match body.result {
            Err(e) => reject(e, body.cursor),
            Ok(b) => accept(
                StmtView::While { condition: test.result->Ok_0, body: Box::new(b) },
                body.cursor,
            ),
        }
    }
}

/// The first clause of a `for`: nothing, a variable declaration or an
/// expression statement.
pub open spec fn for_initializer(ts: Seq<TokenView>, cursor: Cursor) -> Parsed<Option<StmtView>>
    decreases ts.len() - cursor.pos, 24nat, 0nat,
{
    if check(ts, cursor.pos, TokenType::Semicolon) {
        accept(None, step(cursor))
    } else {
        let first = if check(ts, cursor.pos, TokenType::Var) {
            var_declaration(ts, step(cursor))
        } else {
            expression_statement(ts, cursor)
        };
        match first.result {
            Err(e) => reject(e, first.cursor),
            Ok(s) => accept(Some(s), first.cursor),
        }
    }
}

/// The second clause of a `for` and its semicolon: a condition, `true` if
/// none is written.
pub open spec fn for_condition(ts: Seq<TokenView>, cursor: Cursor) -> Parsed<ExprView>
    decreases ts.len() - cursor.pos, 24nat, 0nat,
{
    if check(ts, cursor.pos, TokenType::Semicolon) {
        accept(ExprView::Literal { literal: ObjectView::Bool(true) }, step(cursor))
    } else {
        expression_then_semicolon(ts, cursor, "Expect ';' after loop condition."@)
    }
}

/// The third clause of a `for` and the closing parenthesis.
pub open spec fn for_increment(ts: Seq<TokenView>, cursor: Cursor) -> Parsed<Option<ExprView>>
    decreases ts.len() - cursor.pos, 24nat, 0nat,
{
    if check(ts, cursor.pos, TokenType::RightParen) {
        accept(None, step(cursor))
    } else {
        let value = expression(ts, cursor);
        if halted(ts, cursor, value) {
            handed_on(value)
        } else {
            let close = consume(
                ts,
                value.cursor,
                TokenType::RightParen,
                "Expect ')' after for clauses."@,
            );
            match close.result {
                Err(e) => reject(e, close.cursor),
                Ok(_) => accept(Some(value.result->Ok_0), close.cursor),
            }
        }
    }
}

/// The loop that a `for` stands for: the body followed by the increment, under
/// a `while` on the condition, after the initializer and in a block with it.
pub open spec fn desugared_for(
    initializer: Option<StmtView>,
    condition: ExprView,
    increment: Option<ExprView>,
    body: StmtView,
) -> StmtView {
    let repeated = match increment {
        Some(i) => StmtView::Block { statements: seq![body, StmtView::Expression { expression: i }] },
        None => body,
    };
    let looping = StmtView::While { condition, body: Box::new(repeated) };
    match initializer {
        Some(first) => StmtView::Block { statements: seq![first, looping] },
        None => looping,
    }
}

/// A for statement after `for`.
pub open spec fn for_statement(ts: Seq<TokenView>, cursor: Cursor) -> Parsed<StmtView>
    decreases ts.len() - cursor.pos, 25nat, 0nat,
{
    let open = consume(ts, cursor, TokenType::LeftParen, "Expect '(' after 'for'."@);
    if open.result is Err {
        handed_on(open)
    } else {
        let initializer = for_initializer(ts, open.cursor);
        if halted(ts, open.cursor, initializer) {
            handed_on(initializer)
        } else {
            let test = for_condition(ts, initializer.cursor);
            if halted(ts, initializer.cursor, test) {
                handed_on(test)
            } else {
                let increment = for_increment(ts, test.cursor);
                if halted(ts, test.cursor, increment) {
                    handed_on(increment)
                } else {
                    let body = statement(ts, increment.cursor);
                    match body.result {
                        Err(e) => reject(e, body.cursor),
                        Ok(b) => accept(
                            desugared_for(
                                initializer.result->Ok_0,
                                test.result->Ok_0,
                                increment.result->Ok_0,
                                b,
                            ),
                            body.cursor,
                        ),
                    }
                }
            }
        }
    }
}

/// The declarations of a block up to its closing brace, after those in `sofar`.
pub open spec fn block(ts: Seq<TokenView>, cursor: Cursor, sofar: Seq<StmtView>) -> Parsed<
    Seq<StmtView>,
>
    decreases ts.len() - cursor.pos, 41nat, 0nat,
{
    if !(0 <= cursor.pos < ts.len()) {
        adrift(cursor)
    } else if check(ts, cursor.pos, TokenType::RightBrace) {
        accept(sofar, step(cursor))
    } else if ts[cursor.pos].token_type == TokenType::Eof {
        reject(error_at(ts[cursor.pos], "Expect '}' after block."@), cursor)
    } else {
        let next = declaration(ts, cursor);
        if halted(ts, cursor, next) {
            handed_on(next)
        } else {
            block(ts, next.cursor, sofar.push(next.result->Ok_0))
        }
    }
}

/// `statement`.
pub open spec fn statement(ts: Seq<TokenView>, cursor: Cursor) -> Parsed<StmtView>
    decreases ts.len() - cursor.pos, 30nat, 0nat,
{
    if check(ts, cursor.pos, TokenType::If) {
        if_statement(ts, step(cursor))
    } else if check(ts, cursor.pos, TokenType::Print) {
        print_statement(ts, step(cursor))
    } else if check(ts, cursor.pos, TokenType::Return) {
        return_statement(ts, step(cursor), ts[cursor.pos])
    } else if check(ts, cursor.pos, TokenType::While) {
        while_statement(ts, step(cursor))
    } else if check(ts, cursor.pos, TokenType::For) {
        for_statement(ts, step(cursor))
    } else if check(ts, cursor.pos, TokenType::LeftBrace) {
        let body = block(ts, step(cursor), Seq::empty());
        match body.result {
            Err(e) => reject(e, body.cursor),
            Ok(statements) => accept(StmtView::Block { statements }, body.cursor),
        }
    } else {
        expression_statement(ts, cursor)
    }
}

/// "Expect `kind` name." and its like, for a function or a method.
pub open spec fn expect_name(kind: Seq<char>) -> Seq<char> {
    "Expect "@ + kind + " name."@
}

pub open spec fn expect_paren(kind: Seq<char>) -> Seq<char> {
    "Expect '(' after "@ + kind + " name."@
}

pub open spec fn expect_body(kind: Seq<char>) -> Seq<char> {
    "Expect '{' before "@ + kind + " body."@
}

/// The parameters of a function after those in `sofar`, up to the closing
/// parenthesis. From the 256th on, each is reported, and the list goes on.
pub open spec fn parameters(ts: Seq<TokenView>, cursor: Cursor, sofar: Seq<TokenView>) -> Parsed<
    Seq<TokenView>,
>
    decreases ts.len() - cursor.pos, 0nat, 0nat,
{
    if !(0 <= cursor.pos < ts.len()) {
        adrift(cursor)
    } else {
        let here = if sofar.len() >= MAX_ARITY {
            noted(cursor, error_at(ts[cursor.pos], "Can't have more than 255 parameters."@))
        } else {
            cursor
        };
        let name = consume(ts, here, TokenType::Identifier, "Expect parameter name."@);
        match name.result {
            Err(e) => reject(e, name.cursor),
            Ok(n) => if check(ts, name.cursor.pos, TokenType::Comma) {
                parameters(ts, step(name.cursor), sofar.push(n))
            } else {
                accept(sofar.push(n), name.cursor)
            },
        }
    }
}

/// A function after `fun`, or a method: name, parameters and body.
pub open spec fn function(ts: Seq<TokenView>, cursor: Cursor, kind: Seq<char>) -> Parsed<FunctionView>
    decreases ts.len() - cursor.pos, 42nat, 0nat,
{
    let name = consume(ts, cursor, TokenType::Identifier, expect_name(kind));
    if name.result is Err {
        handed_on(name)
    } else {
        let open = consume(ts, name.cursor, TokenType::LeftParen, expect_paren(kind));
        if open.result is Err {
            handed_on(open)
        } else {
            let params = if check(ts, open.cursor.pos, TokenType::RightParen) {
                accept(Seq::<TokenView>::empty(), open.cursor)
            } else {
                parameters(ts, open.cursor, Seq::empty())
            };
            if params.result is Err || !(open.cursor.pos <= params.cursor.pos < ts.len()) {
                handed_on(params)
            } else {
                let close = consume(
                    ts,
                    params.cursor,
                    TokenType::RightParen,
                    "Expect ')' after parameters."@,
                );
                if close.result is Err {
                    handed_on(close)
                } else {
                    let brace = consume(ts, close.cursor, TokenType::LeftBrace, expect_body(kind));
                    if brace.result is Err {
                        handed_on(brace)
                    } else {
                        let body = block(ts, brace.cursor, Seq::empty());
                        match body.result {
                            Err(e) => reject(e, body.cursor),
                            Ok(statements) => accept(
                                FunctionView {
                                    name: name.result->Ok_0,
                                    params: params.result->Ok_0,
                                    body: statements,
                                },
                                body.cursor,
                            ),
                        }
                    }
                }
            }
        }
    }
}

/// A function declaration after `fun`.
pub open spec fn function_declaration(ts: Seq<TokenView>, cursor: Cursor, kind: Seq<char>) -> Parsed<
    StmtView,
>
    decreases ts.len() - cursor.pos, 43nat, 0nat,
{
    let made = function(ts, cursor, kind);
    match made.result {
        Err(e) => reject(e, made.cursor),
        Ok(f) => accept(StmtView::FunctionDeclaration { function_declaration: f }, made.cursor),
    }
}

/// The methods of a class body after those in `sofar`, up to the closing
/// brace or the end of file.
pub open spec fn methods(ts: Seq<TokenView>, cursor: Cursor, sofar: Seq<FunctionView>) -> Parsed<
    Seq<FunctionView>,
>
    decreases ts.len() - cursor.pos, 43nat, 0nat,
{
    if !(0 <= cursor.pos < ts.len()) {
        adrift(cursor)
    } else if ts[cursor.pos].token_type == TokenType::RightBrace || ts[cursor.pos].token_type
        == TokenType::Eof {
        accept(sofar, cursor)
    } else {
        let next = function(ts, cursor, "method"@);
        if halted(ts, cursor, next) {
            handed_on(next)
        } else {
            methods(ts, next.cursor, sofar.push(next.result->Ok_0))
        }
    }
}

/// A class declaration after `class`.
pub open spec fn class_declaration(ts: Seq<TokenView>, cursor: Cursor) -> Parsed<StmtView>
    decreases ts.len() - cursor.pos, 44nat, 0nat,
{
    let name = consume(ts, cursor, TokenType::Identifier, "Expect class name."@);
    if name.result is Err {
        handed_on(name)
    } else {
        let superclass = if check(ts, name.cursor.pos, TokenType::Less) {
            let parent = consume(
                ts,
                step(name.cursor),
                TokenType::Identifier,
                "Expect superclass name."@,
            );
            match parent.result {
                Err(e) => reject(e, parent.cursor),
                Ok(p) => accept(Some(VariableView { name: p, distance: None }), parent.cursor),
            }
        } else {
            accept(None, name.cursor)
        };
        if superclass.result is Err {
            handed_on(superclass)
        } else {
            let brace = consume(
                ts,
                superclass.cursor,
                TokenType::LeftBrace,
                "Expect '{' before class body."@,
            );
            if brace.result is Err {
                handed_on(brace)
            } else {
                let members = methods(ts, brace.cursor, Seq::empty());
                if members.result is Err || !(brace.cursor.pos <= members.cursor.pos < ts.len()) {
                    handed_on(members)
                } else {
                    let close = consume(
                        ts,
                        members.cursor,
                        TokenType::RightBrace,
                        "Expect '}' after class body."@,
                    );
                    match close.result {
                        Err(e) => reject(e, close.cursor),
                        Ok(_) => accept(
                            StmtView::ClassDeclaration {
                                class_declaration: ClassView {
                                    name: name.result->Ok_0,
                                    superclass: superclass.result->Ok_0,
                                    methods: members.result->Ok_0,
                                },
                            },
                            close.cursor,
                        ),
                    }
                }
            }
        }
    }
}

/// `declaration`.
pub open spec fn declaration(ts: Seq<TokenView>, cursor: Cursor) -> Parsed<StmtView>
    decreases ts.len() - cursor.pos, 40nat, 0nat,
{
    if check(ts, cursor.pos, TokenType::Var) {
        var_declaration(ts, step(cursor))
    } else if check(ts, cursor.pos, TokenType::Fun) {
        function_declaration(ts, step(cursor), "function"@)
    } else if check(ts, cursor.pos, TokenType::Class) {
        class_declaration(ts, step(cursor))
    } else {
        statement(ts, cursor)
    }
}

/// Does a statement begin with a token of this kind?
pub open spec fn begins_statement(kind: TokenType) -> bool {
    kind == TokenType::Class || kind == TokenType::Fun || kind == TokenType::Var || kind
        == TokenType::For || kind == TokenType::If || kind == TokenType::While || kind
        == TokenType::Print || kind == TokenType::Return
}

/// Where the parse goes on after a failure, having stepped over the token at
/// `pos - 1`: behind the next semicolon, or before the next token that begins
/// a statement, or at the end of file.
pub open spec fn resume_from(ts: Seq<TokenView>, pos: int) -> int
    decreases ts.len() - pos,
{
    if !(1 <= pos < ts.len()) {
        pos
    } else if ts[pos].token_type == TokenType::Eof {
        pos
    } else if ts[pos - 1].token_type == TokenType::Semicolon {
        pos
    } else if begins_statement(ts[pos].token_type) {
        pos
    } else {
        resume_from(ts, pos + 1)
    }
}

/// Where the parse goes on after a failure at `pos`.
pub open spec fn synchronized(ts: Seq<TokenView>, pos: int) -> int {
    if 0 <= pos < ts.len() && ts[pos].token_type != TokenType::Eof {
        resume_from(ts, pos + 1)
    } else {
        pos
    }
}

/// What a parse gives: the statements of the declarations that were read
/// whole, and all diagnostics in the order in which they arose.
pub struct Program {
    pub statements: Seq<StmtView>,
    pub errors: Seq<LoxErrView>,
}

/// The declarations from the cursor to the end of file. A declaration that
/// fails is left out; its failure is reported and the parse goes on where
/// `synchronized` says.
pub open spec fn program_rest(ts: Seq<TokenView>, cursor: Cursor, sofar: Seq<StmtView>) -> Program
    decreases ts.len() - cursor.pos,
{
    if !(0 <= cursor.pos < ts.len()) || ts[cursor.pos].token_type == TokenType::Eof {
        Program { statements: sofar, errors: cursor.notes }
    } else {
        let next = declaration(ts, cursor);
        match next.result {
            Ok(s) => if cursor.pos < next.cursor.pos < ts.len() {
                program_rest(ts, next.cursor, sofar.push(s))
            } else {
                Program { statements: sofar, errors: next.cursor.notes }
            },
            Err(e) => {
                let pos = synchronized(ts, next.cursor.pos);
                if cursor.pos < pos < ts.len() {
                    program_rest(ts, Cursor { pos, notes: next.cursor.notes.push(e) }, sofar)
                } else {
                    Program { statements: sofar, errors: next.cursor.notes.push(e) }
                }
            },
        }
    }
}

/// `program`: what the parser makes of a token sequence.
pub open spec fn program(ts: Seq<TokenView>) -> Program {
    program_rest(ts, Cursor { pos: 0, notes: Seq::empty() }, Seq::empty())
}

} // verus!
