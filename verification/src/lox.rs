//! From tokens to a program that may be run: the parser, then the resolver,
//! and the rule that a failure of a stage keeps the later stages from running.
use vstd::prelude::*;
use crate::err::{errors_view, LoxErr, LoxErrView};
use crate::grammar;
use crate::parser::{lemma_errors_push, Parser};
use crate::resolution;
use crate::resolver::Resolver;
use crate::stmt::{stmts_view, Stmt, StmtView};
use crate::token::{tokens_view, Token, TokenView};

verus! {

/// What the stages before the run have made of a source text.
pub struct Prepared {
    /// The statements: resolved, if the parser reported nothing.
    pub statements: Vec<Stmt>,
    /// The diagnostics of the scanner, the parser and the resolver, in that
    /// order.
    pub diagnostics: Vec<LoxErr>,
    /// May the statements be run?
    pub runnable: bool,
}

/// The mathematical value of a [`Prepared`].
pub struct PreparedView {
    pub statements: Seq<StmtView>,
    pub diagnostics: Seq<LoxErrView>,
    pub runnable: bool,
}

impl View for Prepared {
    type V = PreparedView;

    open spec fn view(&self) -> PreparedView {
        PreparedView {
            statements: stmts_view(self.statements@),
            diagnostics: errors_view(self.diagnostics@),
            runnable: self.runnable,
        }
    }
}

/// The failure that a scan ended with, as a list.
pub open spec fn scan_diagnostics(scanned: Result<(), LoxErr>) -> Seq<LoxErrView> {
    match scanned {
        Ok(_) => Seq::empty(),
        Err(e) => seq![e@],
    }
}

/// What the stages make of the tokens `ts`, whose scan ended with
/// `scanned`. The tokens are parsed. If the parser reports anything, the
/// resolver does not run. Else the statements are resolved by a new
/// resolver. The statements may be run only if no stage has reported
/// anything.
pub open spec fn prepared(ts: Seq<TokenView>, scanned: Result<(), LoxErr>) -> PreparedView {
    let parsed = grammar::program(ts);
    if parsed.errors.len() > 0 {
        PreparedView {
            statements: parsed.statements,
            diagnostics: scan_diagnostics(scanned) + parsed.errors,
            runnable: false,
        }
    } else {
        let resolved = resolution::resolve_stmts(parsed.statements, resolution::fresh());
        PreparedView {
            statements: resolved.node,
            diagnostics: scan_diagnostics(scanned) + resolved.state.errors,
            runnable: scanned is Ok && !resolved.state.had_resolve_error,
        }
    }
}

/// The statements may be run exactly if there is no diagnostic.
pub proof fn law_runnable_without_diagnostics(ts: Seq<TokenView>, scanned: Result<(), LoxErr>)
    ensures
        prepared(ts, scanned).runnable == (prepared(ts, scanned).diagnostics.len() == 0),
{
    let parsed = grammar::program(ts);
    if parsed.errors.len() == 0 {
        resolution::law_failures_are_recorded(parsed.statements, resolution::fresh());
    }
}

/// The diagnostics of two lists, one behind the other.
proof fn lemma_errors_joined(a: Seq<LoxErr>, b: Seq<LoxErr>)
    ensures
        errors_view(a + b) == errors_view(a) + errors_view(b),
{
    assert(errors_view(a + b) =~= errors_view(a) + errors_view(b));
}

/// Parses and resolves the tokens of a source text whose scan ended with
/// `scanned`, and says whether what came of it may be run.
pub fn prepare(tokens: &Vec<Token>, scanned: Result<(), LoxErr>) -> (r: Prepared)
    requires
        grammar::terminated(tokens_view(tokens@)),
    ensures
        r@ == prepared(tokens_view(tokens@), scanned),
        r.runnable == (r.diagnostics@.len() == 0),
{
    let ghost ts = tokens_view(tokens@);
    let mut diagnostics: Vec<LoxErr> = Vec::new();
    assert(errors_view(diagnostics@) =~= Seq::empty());
    let scan_failed = scanned.is_err();
    match scanned {
        Ok(_) => {},
        Err(e) => {
            proof {
                lemma_errors_push(diagnostics@, e);
            }
            diagnostics.push(e);
        },
    }
    assert(errors_view(diagnostics@) =~= scan_diagnostics(scanned));
    let mut parser = Parser::new(tokens);
    assert(errors_view(parser.errors@) =~= Seq::empty());
    let mut statements = parser.parse();
    let had_parse_error = parser.errors.len() > 0;
    proof {
        lemma_errors_joined(diagnostics@, parser.errors@);
        law_runnable_without_diagnostics(ts, scanned);
    }
    diagnostics.append(&mut parser.errors);
    if had_parse_error {
        return Prepared { statements, diagnostics, runnable: false };
    }
    assert(errors_view(diagnostics@) =~= scan_diagnostics(scanned));
    let mut resolver = Resolver::new();
    resolver.resolve(&mut statements);
    let runnable = !scan_failed && !resolver.had_resolve_error;
    proof {
        lemma_errors_joined(diagnostics@, resolver.errors@);
    }
    diagnostics.append(&mut resolver.errors);
    Prepared { statements, diagnostics, runnable }
}

} // verus!
