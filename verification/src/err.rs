//! Diagnostics of the four stages.
use vstd::prelude::*;
use vstd::string::StringExecFns;
use crate::text::{decimal_text, push_decimal};

verus! {

/// What a stage reports: where, and in which words.
#[derive(Debug)]
pub enum LoxErr {
    ScriptUsage,
    Scan { line: usize, message: String },
    Parse { line: usize, lexeme: String, message: String },
    Runtime { line: usize, message: String },
    Resolve { line: usize, message: String },
    Many(Vec<LoxErr>),
}

/// The mathematical value of a [`LoxErr`].
pub enum LoxErrView {
    ScriptUsage,
    Scan { line: usize, message: Seq<char> },
    Parse { line: usize, lexeme: Seq<char>, message: Seq<char> },
    Runtime { line: usize, message: Seq<char> },
    Resolve { line: usize, message: Seq<char> },
    Many(Seq<LoxErrView>),
}

impl View for LoxErr {
    type V = LoxErrView;

    open spec fn view(&self) -> LoxErrView
        decreases self,
    {
        match self {
            LoxErr::ScriptUsage => LoxErrView::ScriptUsage,
            LoxErr::Scan { line, message } => LoxErrView::Scan { line: *line, message: message@ },
            LoxErr::Parse { line, lexeme, message } => LoxErrView::Parse {
                line: *line,
                lexeme: lexeme@,
                message: message@,
            },
            LoxErr::Runtime { line, message } => LoxErrView::Runtime {
                line: *line,
                message: message@,
            },
            LoxErr::Resolve { line, message } => LoxErrView::Resolve {
                line: *line,
                message: message@,
            },
            LoxErr::Many(errors) => LoxErrView::Many(errors_view(errors@)),
        }
    }
}

/// The diagnostics of a sequence, each by its value. (The test of the index
/// is there for the proof of termination; no index fails it.)
pub open spec fn errors_view(errors: Seq<LoxErr>) -> Seq<LoxErrView>
    decreases errors,
{
    Seq::new(
        errors.len(),
        |i: int|
            if 0 <= i < errors.len() {
                errors[i]@
            } else {
                LoxErrView::ScriptUsage
            },
    )
}

/// `prefix [line N] `, the head of every located diagnostic.
pub open spec fn located(prefix: Seq<char>, line: usize) -> Seq<char> {
    prefix + "[line "@ + decimal_text(line as nat) + "] "@
}

/// The line of text that stands for a diagnostic. Those of a collection follow
/// one another, each ended by a line feed.
pub open spec fn report_text(e: LoxErrView) -> Seq<char>
    decreases e,
{
    match e {
        LoxErrView::ScriptUsage => "Usage: rilox [script]"@,
        LoxErrView::Scan { line, message } => located("Scan Error: "@, line) + message,
        LoxErrView::Parse { line, lexeme, message } => located("Parse Error: "@, line) + "at "@
            + lexeme + ". "@ + message,
        LoxErrView::Runtime { line, message } => located("Runtime Error: "@, line) + message,
        LoxErrView::Resolve { line, message } => located("Resolve Error: "@, line) + message,
        LoxErrView::Many(errors) => reports_text(errors),
    }
}

/// The lines of a sequence of diagnostics.
pub open spec fn reports_text(errors: Seq<LoxErrView>) -> Seq<char>
    decreases errors,
{
    if errors.len() == 0 {
        Seq::empty()
    } else {
        reports_text(errors.drop_last()) + report_text(errors.last()) + "\n"@
    }
}

fn push_located(out: &mut String, prefix: &str, line: usize)
    ensures
        final(out)@ == old(out)@ + located(prefix@, line),
{
    out.append(prefix);
    out.append("[line ");
    push_decimal(out, line);
    out.append("] ");
    assert(final(out)@ =~= old(out)@ + located(prefix@, line));
}

impl LoxErr {
    /// Appends the diagnostic's text to `out`.
    pub fn push_text(&self, out: &mut String)
        ensures
            final(out)@ == old(out)@ + report_text(self@),
        decreases self,
    {
        match self {
            LoxErr::ScriptUsage => {
                out.append("Usage: rilox [script]");
            },
            LoxErr::Scan { line, message } => {
                push_located(out, "Scan Error: ", *line);
                out.append(message.as_str());
                assert(out@ =~= old(out)@ + report_text(self@));
            },
            LoxErr::Parse { line, lexeme, message } => {
                push_located(out, "Parse Error: ", *line);
                out.append("at ");
                out.append(lexeme.as_str());
                out.append(". ");
                out.append(message.as_str());
                assert(out@ =~= old(out)@ + report_text(self@));
            },
            LoxErr::Runtime { line, message } => {
                push_located(out, "Runtime Error: ", *line);
                out.append(message.as_str());
                assert(out@ =~= old(out)@ + report_text(self@));
            },
            LoxErr::Resolve { line, message } => {
                push_located(out, "Resolve Error: ", *line);
                out.append(message.as_str());
                assert(out@ =~= old(out)@ + report_text(self@));
            },
            LoxErr::Many(errors) => {
                let mut i: usize = 0;
                while i < errors.len()
                    invariant
                        i <= errors.len(),
                        forall|j: int| 0 <= j < errors.len() ==> decreases_to!(*self => errors[j]),
                        out@ == old(out)@ + reports_text(errors_view(errors@).subrange(0, i as int)),
                    decreases errors.len() - i,
                {
                    let ghost before = out@;
                    errors[i].push_text(out);
                    out.append("\n");
                    proof {
                        let all = errors_view(errors@);
                        let next = all.subrange(0, i + 1);
                        assert(next.drop_last() =~= all.subrange(0, i as int));
                        assert(next.last() == errors[i as int]@);
                        assert(out@ =~= old(out)@ + reports_text(next));
                    }
                    i = i + 1;
                }
                assert(errors_view(errors@).subrange(0, i as int) =~= errors_view(errors@));
            },
        }
    }

    /// The diagnostic as text.
    pub fn to_text(&self) -> (r: String)
        ensures
            r@ == report_text(self@),
    {
        let mut r = String::new();
        self.push_text(&mut r);
        assert(Seq::<char>::empty() + report_text(self@) =~= report_text(self@));
        r
    }
}

} // verus!
