//! What holds of lists that are longer than the limit of 255: the list is
//! read as if there were no limit, and each place beyond the limit is
//! reported.
use vstd::prelude::*;
use crate::err::LoxErrView;
use crate::expr::ExprView;
use crate::grammar::{
    accept, adrift, arguments, assignment, block, call, call_rest, chain, chain_rest, check,
    consume, error_at, expression, finish_call, function, function_declaration, halted, handed_on,
    noted, operand, parameters, primary, reject, step, unary, Cursor, Parsed, MAX_ARITY,
};
use crate::stmt::{FunctionView, StmtView};
use crate::token::TokenView;
use crate::token_type::TokenType;

verus! {

/// The tokens from `pos` on spell `n` names with commas between them, and no
/// comma behind the last.
pub open spec fn names_listed(ts: Seq<TokenView>, pos: int, n: nat) -> bool
    decreases n,
{
    &&& n >= 1
    &&& check(ts, pos, TokenType::Identifier)
    &&& if n == 1 {
        !check(ts, pos + 1, TokenType::Comma)
    } else {
        check(ts, pos + 1, TokenType::Comma) && names_listed(ts, pos + 2, (n - 1) as nat)
    }
}

/// How many of the `n` places behind the first `have` lie beyond the limit
/// of 255.
pub open spec fn beyond_limit(have: nat, n: nat) -> nat {
    if have + n <= MAX_ARITY {
        0
    } else if have >= MAX_ARITY {
        n
    } else {
        (have + n - MAX_ARITY) as nat
    }
}

/// The first of the places behind `have` that lies beyond the limit.
pub open spec fn first_beyond(have: nat) -> int {
    if have >= MAX_ARITY {
        0
    } else {
        MAX_ARITY - have
    }
}

/// The token of the `k`-th name of a list that begins at `pos`.
pub open spec fn name_at(ts: Seq<TokenView>, pos: int, k: int) -> TokenView {
    ts[pos + 2 * k]
}

/// The diagnostic for a parameter beyond the limit, which stands at `t`.
pub open spec fn too_many_parameters(t: TokenView) -> LoxErrView {
    error_at(t, "Can't have more than 255 parameters."@)
}

/// A list of parameters is read whole, however long it is: the names come in
/// their order behind those that were there, and the parse stands behind the
/// last. A diagnostic is noted for the 256th parameter and for each behind
/// it, at its token, and for no other.
pub proof fn law_parameters_beyond_the_limit(
    ts: Seq<TokenView>,
    cursor: Cursor,
    sofar: Seq<TokenView>,
    n: nat,
)
    requires
        names_listed(ts, cursor.pos, n),
    ensures
        ({
            let r = parameters(ts, cursor, sofar);
            let base = cursor.notes.len() as int;
            let have = sofar.len() as int;
            &&& r.result is Ok
            &&& r.result->Ok_0.len() == have + n
            &&& r.result->Ok_0.subrange(0, have) == sofar
            &&& forall|k: int|
                0 <= k < n ==> r.result->Ok_0[have + k] == #[trigger] name_at(ts, cursor.pos, k)
            &&& r.cursor.pos == cursor.pos + 2 * n - 1
            &&& r.cursor.notes.len() == base + beyond_limit(sofar.len(), n)
            &&& r.cursor.notes.subrange(0, base) == cursor.notes
            &&& forall|j: int|
                0 <= j < beyond_limit(sofar.len(), n) ==> r.cursor.notes[base + j]
                    == too_many_parameters(
                    #[trigger] name_at(ts, cursor.pos, first_beyond(sofar.len()) + j),
                )
        }),
    decreases n,
{
    let r = parameters(ts, cursor, sofar);
    let base = cursor.notes.len() as int;
    let have = sofar.len() as int;
    let here = if sofar.len() >= MAX_ARITY {
        noted(cursor, too_many_parameters(ts[cursor.pos]))
    } else {
        cursor
    };
    let name = ts[cursor.pos];
    let next = sofar.push(name);
    assert(next.subrange(0, have) =~= sofar);
    assert(here.notes.subrange(0, base) =~= cursor.notes);
    assert(name_at(ts, cursor.pos, 0) == name);
    if n == 1 {
        assert(r == accept(next, step(here)));
        assert forall|k: int| 0 <= k < n implies r.result->Ok_0[have + k] == #[trigger] name_at(
            ts,
            cursor.pos,
            k,
        ) by {}
    } else {
        let further = step(step(here));
        law_parameters_beyond_the_limit(ts, further, next, (n - 1) as nat);
        let q = parameters(ts, further, next);
        assert(r == q);
        let v = q.result->Ok_0;
        let notes = q.cursor.notes;
        let mid = here.notes.len() as int;
        assert(v.subrange(0, have) =~= v.subrange(0, have + 1).subrange(0, have));
        assert(v.subrange(0, have + 1)[have] == name);
        assert forall|k: int| 0 <= k < n implies v[have + k] == #[trigger] name_at(
            ts,
            cursor.pos,
            k,
        ) by {
            if k > 0 {
                assert(v[have + 1 + (k - 1)] == name_at(ts, further.pos, k - 1));
            }
        }
        assert(notes.subrange(0, base) =~= notes.subrange(0, mid).subrange(0, base));
        assert forall|j: int| 0 <= j < beyond_limit(sofar.len(), n) implies notes[base + j]
            == too_many_parameters(
            #[trigger] name_at(ts, cursor.pos, first_beyond(sofar.len()) + j),
        ) by {
            if sofar.len() >= MAX_ARITY {
                if j == 0 {
                    assert(notes.subrange(0, mid)[base] == here.notes[base]);
                } else {
                    assert(notes[mid + (j - 1)] == too_many_parameters(
                        name_at(ts, further.pos, first_beyond(next.len()) + (j - 1)),
                    ));
                }
            } else {
                assert(notes[mid + j] == too_many_parameters(
                    name_at(ts, further.pos, first_beyond(next.len()) + j),
                ));
            }
        }
    }
}

/// The cursor `to` holds the diagnostics of `from` and perhaps more behind them.
pub open spec fn grown(from: Cursor, to: Cursor) -> bool {
    from.notes.len() <= to.notes.len() && to.notes.subrange(0, from.notes.len() as int)
        == from.notes
}

/// The diagnostics that `to` holds behind those of `from`.
pub open spec fn added(from: Cursor, to: Cursor) -> Seq<LoxErrView> {
    to.notes.subrange(from.notes.len() as int, to.notes.len() as int)
}

/// Two parses of one part, begun at one position with different diagnostics
/// noted before, went alike: they gave the same result, stand at the same
/// position, and have added the same diagnostics to what was noted.
pub open spec fn alike<T>(c: Cursor, r: Parsed<T>, d: Cursor, q: Parsed<T>) -> bool {
    &&& r.result == q.result
    &&& r.cursor.pos == q.cursor.pos
    &&& grown(c, r.cursor)
    &&& grown(d, q.cursor)
    &&& added(c, r.cursor) == added(d, q.cursor)
}

/// Two cursors at one position that have added the same to what `c` and `d`
/// held.
pub open spec fn abreast(c: Cursor, c1: Cursor, d: Cursor, d1: Cursor) -> bool {
    &&& c1.pos == d1.pos
    &&& grown(c, c1)
    &&& grown(d, d1)
    &&& added(c, c1) == added(d, d1)
}

/// Parts that went alike from cursors that were abreast went alike from the
/// start.
proof fn lemma_alike_onwards<T>(
    c: Cursor,
    c1: Cursor,
    r: Parsed<T>,
    d: Cursor,
    d1: Cursor,
    q: Parsed<T>,
)
    requires
        abreast(c, c1, d, d1),
        alike(c1, r, d1, q),
    ensures
        alike(c, r, d, q),
{
    let cn = c.notes.len() as int;
    let dn = d.notes.len() as int;
    assert(r.cursor.notes.subrange(0, cn) =~= r.cursor.notes.subrange(
        0,
        c1.notes.len() as int,
    ).subrange(0, cn));
    assert(q.cursor.notes.subrange(0, dn) =~= q.cursor.notes.subrange(
        0,
        d1.notes.len() as int,
    ).subrange(0, dn));
    assert(added(c, r.cursor) =~= added(c, c1) + added(c1, r.cursor)) by {
        assert(c1.notes =~= r.cursor.notes.subrange(0, c1.notes.len() as int));
    }
    assert(added(d, q.cursor) =~= added(d, d1) + added(d1, q.cursor)) by {
        assert(d1.notes =~= q.cursor.notes.subrange(0, d1.notes.len() as int));
    }
}

/// A cursor is abreast of itself, and so is the cursor one token further.
proof fn lemma_abreast_step(c: Cursor, d: Cursor)
    requires
        c.pos == d.pos,
    ensures
        abreast(c, c, d, d),
        abreast(c, step(c), d, step(d)),
{
    assert(c.notes.subrange(0, c.notes.len() as int) =~= c.notes);
    assert(d.notes.subrange(0, d.notes.len() as int) =~= d.notes);
    assert(added(c, c) =~= added(d, d));
}

/// Cursors that note the same diagnostic stay abreast.
proof fn lemma_abreast_noted(c: Cursor, c1: Cursor, d: Cursor, d1: Cursor, e: LoxErrView)
    requires
        abreast(c, c1, d, d1),
    ensures
        abreast(c, noted(c1, e), d, noted(d1, e)),
{
    let cn = c.notes.len() as int;
    let dn = d.notes.len() as int;
    assert(noted(c1, e).notes.subrange(0, cn) =~= c1.notes.subrange(0, cn));
    assert(noted(d1, e).notes.subrange(0, dn) =~= d1.notes.subrange(0, dn));
    assert(added(c, noted(c1, e)) =~= added(c, c1).push(e));
    assert(added(d, noted(d1, e)) =~= added(d, d1).push(e));
}

/// The cursor behind a part that went alike is abreast.
proof fn lemma_abreast_behind<T>(c: Cursor, r: Parsed<T>, d: Cursor, q: Parsed<T>)
    requires
        alike(c, r, d, q),
    ensures
        abreast(c, r.cursor, d, q.cursor),
        abreast(c, step(r.cursor), d, step(q.cursor)),
{
}

/// A token is expected alike.
proof fn lemma_consume_alike(
    ts: Seq<TokenView>,
    c: Cursor,
    d: Cursor,
    kind: TokenType,
    message: Seq<char>,
)
    requires
        c.pos == d.pos,
    ensures
        alike(c, consume(ts, c, kind, message), d, consume(ts, d, kind, message)),
{
    lemma_abreast_step(c, d);
}

/// `primary` goes alike, whatever was noted before.
proof fn lemma_primary_alike(ts: Seq<TokenView>, c: Cursor, d: Cursor)
    requires
        c.pos == d.pos,
    ensures
        alike(c, primary(ts, c), d, primary(ts, d)),
    decreases ts.len() - c.pos, 0nat, 0nat,
{
    lemma_abreast_step(c, d);
    if 0 <= c.pos < ts.len() {
        let t = ts[c.pos];
        match t.token_type {
            TokenType::Super => {
                let dot_c = consume(ts, step(c), TokenType::Dot, "Expect '.' after 'super'."@);
                let dot_d = consume(ts, step(d), TokenType::Dot, "Expect '.' after 'super'."@);
                lemma_consume_alike(
                    ts,
                    step(c),
                    step(d),
                    TokenType::Dot,
                    "Expect '.' after 'super'."@,
                );
                lemma_alike_onwards(c, step(c), dot_c, d, step(d), dot_d);
                if dot_c.result is Ok {
                    lemma_consume_alike(
                        ts,
                        dot_c.cursor,
                        dot_d.cursor,
                        TokenType::Identifier,
                        "Expect superclass method name."@,
                    );
                    lemma_alike_onwards(
                        c,
                        dot_c.cursor,
                        consume(
                            ts,
                            dot_c.cursor,
                            TokenType::Identifier,
                            "Expect superclass method name."@,
                        ),
                        d,
                        dot_d.cursor,
                        consume(
                            ts,
                            dot_d.cursor,
                            TokenType::Identifier,
                            "Expect superclass method name."@,
                        ),
                    );
                }
            },
            TokenType::LeftParen => {
                let inner_c = expression(ts, step(c));
                let inner_d = expression(ts, step(d));
                lemma_expression_alike(ts, step(c), step(d));
                lemma_alike_onwards(c, step(c), inner_c, d, step(d), inner_d);
                if !halted(ts, step(c), inner_c) {
                    lemma_consume_alike(
                        ts,
                        inner_c.cursor,
                        inner_d.cursor,
                        TokenType::RightParen,
                        "Expect ')' after expression."@,
                    );
                    lemma_alike_onwards(
                        c,
                        inner_c.cursor,
                        consume(
                            ts,
                            inner_c.cursor,
                            TokenType::RightParen,
                            "Expect ')' after expression."@,
                        ),
                        d,
                        inner_d.cursor,
                        consume(
                            ts,
                            inner_d.cursor,
                            TokenType::RightParen,
                            "Expect ')' after expression."@,
                        ),
                    );
                }
            },
            _ => {},
        }
    }
}

/// The diagnostic for an argument beyond the limit, which begins at `t`.
pub open spec fn too_many_arguments(t: TokenView) -> LoxErrView {
    error_at(t, "Can't have more than 255 arguments."@)
}

/// The arguments of a call as they would be read if there were no limit.
pub open spec fn arguments_without_limit(
    ts: Seq<TokenView>,
    cursor: Cursor,
    sofar: Seq<ExprView>,
) -> Parsed<Seq<ExprView>>
    decreases ts.len() - cursor.pos,
{
    if !(0 <= cursor.pos < ts.len()) {
        adrift(cursor)
    } else {
        let argument = expression(ts, cursor);
        if halted(ts, cursor, argument) {
            handed_on(argument)
        } else if check(ts, argument.cursor.pos, TokenType::Comma) {
            arguments_without_limit(ts, step(argument.cursor), sofar.push(argument.result->Ok_0))
        } else {
            accept(sofar.push(argument.result->Ok_0), argument.cursor)
        }
    }
}

/// The arguments go alike, whatever was noted before.
proof fn lemma_arguments_alike(ts: Seq<TokenView>, c: Cursor, d: Cursor, sofar: Seq<ExprView>)
    requires
        c.pos == d.pos,
    ensures
        alike(c, arguments(ts, c, sofar), d, arguments(ts, d, sofar)),
    decreases ts.len() - c.pos, 30nat, 0nat,
{
    lemma_abreast_step(c, d);
    if 0 <= c.pos < ts.len() {
        let e = too_many_arguments(ts[c.pos]);
        let here_c = if sofar.len() >= MAX_ARITY {
            noted(c, e)
        } else {
            c
        };
        let here_d = if sofar.len() >= MAX_ARITY {
            noted(d, e)
        } else {
            d
        };
        lemma_abreast_noted(c, c, d, d, e);
        let arg_c = expression(ts, here_c);
        let arg_d = expression(ts, here_d);
        lemma_expression_alike(ts, here_c, here_d);
        lemma_alike_onwards(c, here_c, arg_c, d, here_d, arg_d);
        if !halted(ts, here_c, arg_c) {
            lemma_abreast_behind(c, arg_c, d, arg_d);
            if check(ts, arg_c.cursor.pos, TokenType::Comma) {
                let next = sofar.push(arg_c.result->Ok_0);
                lemma_arguments_alike(ts, step(arg_c.cursor), step(arg_d.cursor), next);
                lemma_alike_onwards(
                    c,
                    step(arg_c.cursor),
                    arguments(ts, step(arg_c.cursor), next),
                    d,
                    step(arg_d.cursor),
                    arguments(ts, step(arg_d.cursor), next),
                );
            }
        }
    }
}

/// A call behind its opening parenthesis goes alike.
proof fn lemma_finish_call_alike(ts: Seq<TokenView>, c: Cursor, d: Cursor, callee: ExprView)
    requires
        c.pos == d.pos,
    ensures
        alike(c, finish_call(ts, c, callee), d, finish_call(ts, d, callee)),
    decreases ts.len() - c.pos, 31nat, 0nat,
{
    lemma_abreast_step(c, d);
    let args_c = if check(ts, c.pos, TokenType::RightParen) {
        accept(Seq::<ExprView>::empty(), c)
    } else {
        arguments(ts, c, Seq::empty())
    };
    let args_d = if check(ts, d.pos, TokenType::RightParen) {
        accept(Seq::<ExprView>::empty(), d)
    } else {
        arguments(ts, d, Seq::empty())
    };
    if !check(ts, c.pos, TokenType::RightParen) {
        lemma_arguments_alike(ts, c, d, Seq::empty());
    }
    assert(alike(c, args_c, d, args_d));
    if !(args_c.result is Err || !(c.pos <= args_c.cursor.pos < ts.len())) {
        lemma_consume_alike(
            ts,
            args_c.cursor,
            args_d.cursor,
            TokenType::RightParen,
            "Expect ')' after arguments."@,
        );
        lemma_alike_onwards(
            c,
            args_c.cursor,
            consume(ts, args_c.cursor, TokenType::RightParen, "Expect ')' after arguments."@),
            d,
            args_d.cursor,
            consume(ts, args_d.cursor, TokenType::RightParen, "Expect ')' after arguments."@),
        );
    }
}

/// What follows a primary goes alike.
proof fn lemma_call_rest_alike(ts: Seq<TokenView>, c: Cursor, d: Cursor, sofar: ExprView)
    requires
        c.pos == d.pos,
    ensures
        alike(c, call_rest(ts, c, sofar), d, call_rest(ts, d, sofar)),
    decreases ts.len() - c.pos, 0nat, 0nat,
{
    lemma_abreast_step(c, d);
    if check(ts, c.pos, TokenType::LeftParen) {
        let made_c = finish_call(ts, step(c), sofar);
        let made_d = finish_call(ts, step(d), sofar);
        lemma_finish_call_alike(ts, step(c), step(d), sofar);
        lemma_alike_onwards(c, step(c), made_c, d, step(d), made_d);
        if !halted(ts, step(c), made_c) {
            lemma_call_rest_alike(ts, made_c.cursor, made_d.cursor, made_c.result->Ok_0);
            lemma_alike_onwards(
                c,
                made_c.cursor,
                call_rest(ts, made_c.cursor, made_c.result->Ok_0),
                d,
                made_d.cursor,
                call_rest(ts, made_d.cursor, made_c.result->Ok_0),
            );
        }
    } else if check(ts, c.pos, TokenType::Dot) {
        let name_c = consume(
            ts,
            step(c),
            TokenType::Identifier,
            "Expect property name after '.'."@,
        );
        let name_d = consume(
            ts,
            step(d),
            TokenType::Identifier,
            "Expect property name after '.'."@,
        );
        lemma_consume_alike(
            ts,
            step(c),
            step(d),
            TokenType::Identifier,
            "Expect property name after '.'."@,
        );
        lemma_alike_onwards(c, step(c), name_c, d, step(d), name_d);
        match name_c.result {
            Err(_) => {},
            Ok(n) => {
                let got = ExprView::Get { object: Box::new(sofar), name: n };
                lemma_call_rest_alike(ts, name_c.cursor, name_d.cursor, got);
                lemma_alike_onwards(
                    c,
                    name_c.cursor,
                    call_rest(ts, name_c.cursor, got),
                    d,
                    name_d.cursor,
                    call_rest(ts, name_d.cursor, got),
                );
            },
        }
    }
}

/// `call` goes alike.
proof fn lemma_call_alike(ts: Seq<TokenView>, c: Cursor, d: Cursor)
    requires
        c.pos == d.pos,
    ensures
        alike(c, call(ts, c), d, call(ts, d)),
    decreases ts.len() - c.pos, 1nat, 0nat,
{
    let first_c = primary(ts, c);
    let first_d = primary(ts, d);
    lemma_primary_alike(ts, c, d);
    if !halted(ts, c, first_c) {
        lemma_call_rest_alike(ts, first_c.cursor, first_d.cursor, first_c.result->Ok_0);
        lemma_alike_onwards(
            c,
            first_c.cursor,
            call_rest(ts, first_c.cursor, first_c.result->Ok_0),
            d,
            first_d.cursor,
            call_rest(ts, first_d.cursor, first_c.result->Ok_0),
        );
    }
}

/// `unary` goes alike.
proof fn lemma_unary_alike(ts: Seq<TokenView>, c: Cursor, d: Cursor)
    requires
        c.pos == d.pos,
    ensures
        alike(c, unary(ts, c), d, unary(ts, d)),
    decreases ts.len() - c.pos, 2nat, 0nat,
{
    lemma_abreast_step(c, d);
    if check(ts, c.pos, TokenType::Bang) || check(ts, c.pos, TokenType::Minus) {
        lemma_unary_alike(ts, step(c), step(d));
        lemma_alike_onwards(c, step(c), unary(ts, step(c)), d, step(d), unary(ts, step(d)));
    } else {
        lemma_call_alike(ts, c, d);
    }
}

/// An operand goes alike.
proof fn lemma_operand_alike(ts: Seq<TokenView>, c: Cursor, d: Cursor, level: nat)
    requires
        c.pos == d.pos,
    ensures
        alike(c, operand(ts, c, level), d, operand(ts, d, level)),
    decreases ts.len() - c.pos, 3nat + level, 0nat,
{
    if level <= 1 {
        lemma_unary_alike(ts, c, d);
    } else {
        lemma_chain_alike(ts, c, d, (level - 1) as nat);
    }
}

/// What follows the first operand of a level goes alike.
proof fn lemma_chain_rest_alike(
    ts: Seq<TokenView>,
    c: Cursor,
    d: Cursor,
    level: nat,
    left: ExprView,
)
    requires
        c.pos == d.pos,
    ensures
        alike(c, chain_rest(ts, c, level, left), d, chain_rest(ts, d, level, left)),
    decreases ts.len() - c.pos, 0nat, 0nat,
{
    lemma_abreast_step(c, d);
    if 0 <= c.pos < ts.len() && ts[c.pos].token_type != TokenType::Eof
        && crate::grammar::level_operator(level, ts[c.pos].token_type) {
        let right_c = operand(ts, step(c), level);
        let right_d = operand(ts, step(d), level);
        lemma_operand_alike(ts, step(c), step(d), level);
        lemma_alike_onwards(c, step(c), right_c, d, step(d), right_d);
        if !halted(ts, step(c), right_c) {
            let node = crate::grammar::joined(level, left, ts[c.pos], right_c.result->Ok_0);
            lemma_chain_rest_alike(ts, right_c.cursor, right_d.cursor, level, node);
            lemma_alike_onwards(
                c,
                right_c.cursor,
                chain_rest(ts, right_c.cursor, level, node),
                d,
                right_d.cursor,
                chain_rest(ts, right_d.cursor, level, node),
            );
        }
    }
}

/// A binary level goes alike.
proof fn lemma_chain_alike(ts: Seq<TokenView>, c: Cursor, d: Cursor, level: nat)
    requires
        c.pos == d.pos,
    ensures
        alike(c, chain(ts, c, level), d, chain(ts, d, level)),
    decreases ts.len() - c.pos, 3nat + level, 1nat,
{
    let first_c = operand(ts, c, level);
    let first_d = operand(ts, d, level);
    lemma_operand_alike(ts, c, d, level);
    if !halted(ts, c, first_c) {
        lemma_chain_rest_alike(ts, first_c.cursor, first_d.cursor, level, first_c.result->Ok_0);
        lemma_alike_onwards(
            c,
            first_c.cursor,
            chain_rest(ts, first_c.cursor, level, first_c.result->Ok_0),
            d,
            first_d.cursor,
            chain_rest(ts, first_d.cursor, level, first_c.result->Ok_0),
        );
    }
}

/// `assignment` goes alike.
proof fn lemma_assignment_alike(ts: Seq<TokenView>, c: Cursor, d: Cursor)
    requires
        c.pos == d.pos,
    ensures
        alike(c, assignment(ts, c), d, assignment(ts, d)),
    decreases ts.len() - c.pos, 20nat, 0nat,
{
    let left_c = chain(ts, c, 6);
    let left_d = chain(ts, d, 6);
    lemma_chain_alike(ts, c, d, 6);
    if !halted(ts, c, left_c) && check(ts, left_c.cursor.pos, TokenType::Equal) {
        lemma_abreast_behind(c, left_c, d, left_d);
        let value_c = assignment(ts, step(left_c.cursor));
        let value_d = assignment(ts, step(left_d.cursor));
        lemma_assignment_alike(ts, step(left_c.cursor), step(left_d.cursor));
        lemma_alike_onwards(c, step(left_c.cursor), value_c, d, step(left_d.cursor), value_d);
        if value_c.result is Ok {
            lemma_abreast_behind(c, value_c, d, value_d);
            lemma_abreast_noted(
                c,
                value_c.cursor,
                d,
                value_d.cursor,
                error_at(ts[left_c.cursor.pos], "Invalid assignment target."@),
            );
        }
    }
}

/// An expression is read alike, whatever was noted before: the diagnostics
/// are only added to, and do not steer the parse.
pub proof fn lemma_expression_alike(ts: Seq<TokenView>, c: Cursor, d: Cursor)
    requires
        c.pos == d.pos,
    ensures
        alike(c, expression(ts, c), d, expression(ts, d)),
    decreases ts.len() - c.pos, 21nat, 0nat,
{
    lemma_assignment_alike(ts, c, d);
}

/// A list of arguments is read as if there were no limit: the same
/// expressions in the same order, or the same failure, and the parse stands
/// at the same place. What is noted is what would be noted without the limit
/// and, where the list is read whole, one diagnostic more for the 256th
/// argument and for each behind it.
#[verifier::rlimit(40)]
pub proof fn law_arguments_beyond_the_limit(
    ts: Seq<TokenView>,
    cursor: Cursor,
    free: Cursor,
    sofar: Seq<ExprView>,
)
    requires
        cursor.pos == free.pos,
    ensures
        ({
            let r = arguments(ts, cursor, sofar);
            let u = arguments_without_limit(ts, free, sofar);
            &&& r.result == u.result
            &&& r.cursor.pos == u.cursor.pos
            &&& grown(cursor, r.cursor)
            &&& grown(free, u.cursor)
            &&& match r.result {
                Ok(v) => {
                    &&& v.len() > sofar.len()
                    &&& v.subrange(0, sofar.len() as int) == sofar
                    &&& added(cursor, r.cursor).len() == added(free, u.cursor).len() + beyond_limit(
                        sofar.len(),
                        (v.len() - sofar.len()) as nat,
                    )
                },
                Err(_) => true,
            }
            &&& sofar.len() >= MAX_ARITY && 0 <= cursor.pos < ts.len() ==> added(
                cursor,
                r.cursor,
            ).len() > 0 && added(cursor, r.cursor)[0] == too_many_arguments(ts[cursor.pos])
        }),
    decreases ts.len() - cursor.pos,
{
    lemma_abreast_step(cursor, free);
    if 0 <= cursor.pos < ts.len() {
        let e = too_many_arguments(ts[cursor.pos]);
        let here = if sofar.len() >= MAX_ARITY {
            noted(cursor, e)
        } else {
            cursor
        };
        let arg = expression(ts, here);
        let arg_free = expression(ts, free);
        lemma_expression_alike(ts, here, free);
        lemma_abreast_behind(here, arg, free, arg_free);
        assert(grown(cursor, here) && added(cursor, here).len() == (if sofar.len() >= MAX_ARITY {
            1int
        } else {
            0int
        })) by {
            assert(here.notes.subrange(0, cursor.notes.len() as int) =~= cursor.notes);
        }
        assert(grown(cursor, arg.cursor) && added(cursor, arg.cursor) =~= added(cursor, here)
            + added(here, arg.cursor)) by {
            assert(arg.cursor.notes.subrange(0, cursor.notes.len() as int)
                =~= arg.cursor.notes.subrange(0, here.notes.len() as int).subrange(
                0,
                cursor.notes.len() as int,
            ));
            assert(here.notes =~= arg.cursor.notes.subrange(0, here.notes.len() as int));
        }
        if sofar.len() >= MAX_ARITY {
            assert(added(cursor, here)[0] == e);
        }
        if !halted(ts, here, arg) {
            let next = sofar.push(arg.result->Ok_0);
            assert(next.subrange(0, sofar.len() as int) =~= sofar);
            if check(ts, arg.cursor.pos, TokenType::Comma) {
                let further = step(arg.cursor);
                let further_free = step(arg_free.cursor);
                law_arguments_beyond_the_limit(ts, further, further_free, next);
                let r = arguments(ts, further, next);
                let u = arguments_without_limit(ts, further_free, next);
                assert(grown(cursor, r.cursor) && added(cursor, r.cursor) =~= added(
                    cursor,
                    arg.cursor,
                ) + added(further, r.cursor)) by {
                    assert(r.cursor.notes.subrange(0, cursor.notes.len() as int)
                        =~= r.cursor.notes.subrange(0, further.notes.len() as int).subrange(
                        0,
                        cursor.notes.len() as int,
                    ));
                    assert(further.notes =~= r.cursor.notes.subrange(
                        0,
                        further.notes.len() as int,
                    ));
                }
                assert(grown(free, u.cursor) && added(free, u.cursor) =~= added(
                    free,
                    arg_free.cursor,
                ) + added(further_free, u.cursor)) by {
                    assert(u.cursor.notes.subrange(0, free.notes.len() as int)
                        =~= u.cursor.notes.subrange(0, further_free.notes.len() as int).subrange(
                        0,
                        free.notes.len() as int,
                    ));
                    assert(further_free.notes =~= u.cursor.notes.subrange(
                        0,
                        further_free.notes.len() as int,
                    ));
                }
                match r.result {
                    Ok(v) => {
                        assert(v.subrange(0, sofar.len() as int) =~= v.subrange(
                            0,
                            next.len() as int,
                        ).subrange(0, sofar.len() as int));
                    },
                    Err(_) => {},
                }
            }
        }
    }
}

/// A call behind its opening parenthesis as it would be read if there were
/// no limit.
pub open spec fn finish_call_without_limit(
    ts: Seq<TokenView>,
    cursor: Cursor,
    callee: ExprView,
) -> Parsed<ExprView> {
    let args = if check(ts, cursor.pos, TokenType::RightParen) {
        accept(Seq::<ExprView>::empty(), cursor)
    } else {
        arguments_without_limit(ts, cursor, Seq::empty())
    };
    if args.result is Err || !(cursor.pos <= args.cursor.pos < ts.len()) {
        handed_on(args)
    } else {
        let close = consume(ts, args.cursor, TokenType::RightParen, "Expect ')' after arguments."@);
        match close.result {
            Err(e) => reject(e, close.cursor),
            Ok(paren) => accept(
                ExprView::Call { callee: Box::new(callee), paren, arguments: args.result->Ok_0 },
                close.cursor,
            ),
        }
    }
}

/// The number of arguments of a call.
pub open spec fn argument_count(e: ExprView) -> nat {
    match e {
        ExprView::Call { callee, paren, arguments } => arguments.len(),
        _ => 0,
    }
}

/// A call is read as if there were no limit on its arguments: the same call
/// with the same arguments in the same order and the same closing
/// parenthesis, or the same failure, and the parse stands at the same place.
/// Where the call is read whole, what is noted is what would be noted without
/// the limit and one diagnostic more for the 256th argument and for each
/// behind it; a call of up to 255 arguments adds none.
pub proof fn law_call_beyond_the_limit(
    ts: Seq<TokenView>,
    cursor: Cursor,
    free: Cursor,
    callee: ExprView,
)
    requires
        cursor.pos == free.pos,
    ensures
        ({
            let r = finish_call(ts, cursor, callee);
            let u = finish_call_without_limit(ts, free, callee);
            &&& r.result == u.result
            &&& r.cursor.pos == u.cursor.pos
            &&& grown(cursor, r.cursor)
            &&& grown(free, u.cursor)
            &&& match r.result {
                Ok(call) => call is Call && added(cursor, r.cursor).len() == added(
                    free,
                    u.cursor,
                ).len() + beyond_limit(0, argument_count(call)),
                Err(_) => true,
            }
        }),
{
    lemma_abreast_step(cursor, free);
    if !check(ts, cursor.pos, TokenType::RightParen) {
        law_arguments_beyond_the_limit(ts, cursor, free, Seq::empty());
    }
}

/// The tokens from `pos` on spell a function without statements: a name, `n`
/// parameters in parentheses, and an empty body.
pub open spec fn function_spelled(ts: Seq<TokenView>, pos: int, n: nat) -> bool {
    &&& check(ts, pos, TokenType::Identifier)
    &&& check(ts, pos + 1, TokenType::LeftParen)
    &&& names_listed(ts, pos + 2, n)
    &&& check(ts, pos + 2 * n + 1, TokenType::RightParen)
    &&& check(ts, pos + 2 * n + 2, TokenType::LeftBrace)
    &&& check(ts, pos + 2 * n + 3, TokenType::RightBrace)
}

/// A function declaration is read whole, however many parameters it has: the
/// declaration has the name and all `n` parameters in their order, and the
/// parse stands behind its body. A diagnostic is noted for the 256th
/// parameter and for each behind it, at its token, and for no other: none
/// for a function of up to 255 parameters.
pub proof fn law_function_beyond_the_limit(
    ts: Seq<TokenView>,
    cursor: Cursor,
    kind: Seq<char>,
    n: nat,
)
    requires
        function_spelled(ts, cursor.pos, n),
    ensures
        ({
            let r = function_declaration(ts, cursor, kind);
            let base = cursor.notes.len() as int;
            &&& r.result is Ok
            &&& r.result->Ok_0 is FunctionDeclaration
            &&& r.cursor.pos == cursor.pos + 2 * n + 4
            &&& r.cursor.notes.len() == base + beyond_limit(0, n)
            &&& r.cursor.notes.subrange(0, base) == cursor.notes
            &&& forall|j: int|
                0 <= j < beyond_limit(0, n) ==> r.cursor.notes[base + j] == too_many_parameters(
                    #[trigger] name_at(ts, cursor.pos + 2, MAX_ARITY + j),
                )
            &&& match r.result->Ok_0 {
                StmtView::FunctionDeclaration { function_declaration } => {
                    &&& function_declaration.name == ts[cursor.pos]
                    &&& function_declaration.params.len() == n
                    &&& forall|k: int|
                        0 <= k < n ==> function_declaration.params[k] == #[trigger] name_at(
                            ts,
                            cursor.pos + 2,
                            k,
                        )
                    &&& function_declaration.body.len() == 0
                },
                _ => false,
            }
        }),
{
    let opened = step(step(cursor));
    law_parameters_beyond_the_limit(ts, opened, Seq::empty(), n);
    let params = parameters(ts, opened, Seq::empty());
    assert(!check(ts, opened.pos, TokenType::RightParen));
    let braced = step(step(params.cursor));
    let body = block(ts, braced, Seq::empty());
    assert(body == accept(Seq::<StmtView>::empty(), step(braced)));
    let made = function(ts, cursor, kind);
    assert(made == accept(
        FunctionView { name: ts[cursor.pos], params: params.result->Ok_0, body: Seq::empty() },
        step(braced),
    ));
    assert(first_beyond(0) == MAX_ARITY);
}

} // verus!
