//! Expressions as text, in prefix form with parentheses. A number in the
//! text is left as a piece of its own, to be spelled by whoever can.
use vstd::prelude::*;
use vstd::string::StringExecFns;
use crate::expr::{exprs_view, Expr, ExprView};
use crate::object::{Object, ObjectView};

verus! {

/// A piece of a rendering: text, or the bit pattern of a number.
#[derive(Debug)]
pub enum Piece {
    Text(String),
    Number(u64),
}

/// The mathematical value of a [`Piece`].
pub enum PieceView {
    Text(Seq<char>),
    Number(u64),
}

impl View for Piece {
    type V = PieceView;

    open spec fn view(&self) -> PieceView {
        match self {
            Piece::Text(s) => PieceView::Text(s@),
            Piece::Number(n) => PieceView::Number(*n),
        }
    }
}

/// The pieces of a sequence, each by its value.
pub open spec fn pieces_view(pieces: Seq<Piece>) -> Seq<PieceView> {
    Seq::new(pieces.len(), |i: int| pieces[i]@)
}

/// One piece of text.
pub open spec fn text(s: Seq<char>) -> Seq<PieceView> {
    seq![PieceView::Text(s)]
}

/// A literal value as text: `nil`, `true`, `false`, the text of a string as
/// it is, a number as a piece of its own.
pub open spec fn literal_rendering(v: ObjectView) -> Seq<PieceView> {
    match v {
        ObjectView::Nil => text("nil"@),
        ObjectView::Bool(b) => if b {
            text("true"@)
        } else {
            text("false"@)
        },
        ObjectView::String(s) => text(s),
        ObjectView::Number(n) => seq![PieceView::Number(n)],
        _ => text("<object>"@),
    }
}

/// An expression as text: an operator before its operands, all in
/// parentheses. A variable shows the value that its token carries.
pub open spec fn rendering(e: ExprView) -> Seq<PieceView>
    decreases e,
{
    match e {
        ExprView::Assign { name, value, distance } => text("(= "@ + name.lexeme + " "@) + rendering(
            *value,
        ) + text(")"@),
        ExprView::Binary { left, operator, right } => text("("@ + operator.lexeme + " "@)
            + rendering(*left) + text(" "@) + rendering(*right) + text(")"@),
        ExprView::Call { callee, paren, arguments } => text("(call "@) + rendering(*callee)
            + renderings(arguments) + text(")"@),
        ExprView::Get { object, name } => text("(. "@) + rendering(*object) + text(
            " "@ + name.lexeme + ")"@,
        ),
        ExprView::Grouping { expression } => text("(group "@) + rendering(*expression) + text(")"@),
        ExprView::Literal { literal } => literal_rendering(literal),
        ExprView::Logical { left, operator, right } => text("("@ + operator.lexeme + " "@)
            + rendering(*left) + text(" "@) + rendering(*right) + text(")"@),
        ExprView::SetField { object, name, value } => text("(="@) + rendering(*object) + text(
            " "@ + name.lexeme + " "@,
        ) + rendering(*value) + text(")"@),
        ExprView::Super { keyword, method, distance } => text("(super "@ + method.lexeme + ")"@),
        ExprView::This { keyword, distance } => text("this"@),
        ExprView::Unary { operator, right } => text("("@ + operator.lexeme + " "@) + rendering(
            *right,
        ) + text(")"@),
        ExprView::Variable(v) => literal_rendering(v.name.literal),
    }
}

/// The expressions of a sequence as text, a blank before each.
pub open spec fn renderings(exprs: Seq<ExprView>) -> Seq<PieceView>
    decreases exprs,
{
    if exprs.len() == 0 {
        Seq::empty()
    } else {
        renderings(exprs.drop_last()) + text(" "@) + rendering(exprs.last())
    }
}

fn push_text(out: &mut Vec<Piece>, s: String)
    ensures
        pieces_view(final(out)@) == pieces_view(old(out)@) + text(s@),
{
    out.push(Piece::Text(s));
    assert(pieces_view(out@) =~= pieces_view(old(out)@) + text(s@));
}

fn push_str(out: &mut Vec<Piece>, s: &str)
    ensures
        pieces_view(final(out)@) == pieces_view(old(out)@) + text(s@),
{
    push_text(out, String::from_str(s));
}

/// `before name after`, as one text.
fn around(before: &str, name: &String, after: &str) -> (r: String)
    ensures
        r@ == before@ + name@ + after@,
{
    let mut r = String::from_str(before);
    r.append(name.as_str());
    r.append(after);
    r
}

fn push_literal(out: &mut Vec<Piece>, literal: &Object)
    ensures
        pieces_view(final(out)@) == pieces_view(old(out)@) + literal_rendering(literal@),
{
    match literal {
        Object::Nil => push_str(out, "nil"),
        Object::Bool(b) => {
            if *b {
                push_str(out, "true")
            } else {
                push_str(out, "false")
            }
        },
        Object::String(s) => push_text(out, s.clone()),
        Object::Number(n) => {
            out.push(Piece::Number(*n));
            assert(pieces_view(out@) =~= pieces_view(old(out)@) + seq![PieceView::Number(*n)]);
        },
        _ => push_str(out, "<object>"),
    }
}

impl Expr {
    /// Appends the expression as text to `out`.
    #[verifier::rlimit(40)]
    pub fn render(&self, out: &mut Vec<Piece>)
        ensures
            pieces_view(final(out)@) == pieces_view(old(out)@) + rendering(self@),
        decreases self,
    {
        let ghost start = pieces_view(out@);
        match self {
            Expr::Assign(a) => {
                push_text(out, around("(= ", &a.name.lexeme, " "));
                a.value.render(out);
                push_str(out, ")");
            },
            Expr::Binary(b) => {
                push_text(out, around("(", &b.operator.lexeme, " "));
                b.left.render(out);
                push_str(out, " ");
                b.right.render(out);
                push_str(out, ")");
            },
            Expr::Call(c) => {
                push_str(out, "(call ");
                c.callee.render(out);
                let ghost callee_done = pieces_view(out@);
                let mut i: usize = 0;
                assert(exprs_view(c.arguments@).subrange(0, 0) =~= Seq::empty());
                while i < c.arguments.len()
                    invariant
                        i <= c.arguments@.len(),
                        forall|j: int|
                            0 <= j < c.arguments@.len() ==> decreases_to!(*self => c.arguments@[j]),
                        pieces_view(out@) == callee_done + renderings(
                            exprs_view(c.arguments@).subrange(0, i as int),
                        ),
                    decreases c.arguments@.len() - i,
                {
                    assert(exprs_view(c.arguments@).subrange(0, i + 1).drop_last() =~= exprs_view(
                        c.arguments@,
                    ).subrange(0, i as int));
                    push_str(out, " ");
                    c.arguments[i].render(out);
                    i = i + 1;
                }
                assert(exprs_view(c.arguments@).subrange(0, i as int) =~= exprs_view(c.arguments@));
                push_str(out, ")");
            },
            Expr::Get(g) => {
                push_str(out, "(. ");
                g.object.render(out);
                push_text(out, around(" ", &g.name.lexeme, ")"));
            },
            Expr::Grouping(g) => {
                push_str(out, "(group ");
                g.expression.render(out);
                push_str(out, ")");
            },
            Expr::Literal(l) => {
                push_literal(out, &l.literal);
            },
            Expr::Logical(b) => {
                push_text(out, around("(", &b.operator.lexeme, " "));
                b.left.render(out);
                push_str(out, " ");
                b.right.render(out);
                push_str(out, ")");
            },
            Expr::SetField(s) => {
                push_str(out, "(=");
                s.object.render(out);
                push_text(out, around(" ", &s.name.lexeme, " "));
                s.value.render(out);
                push_str(out, ")");
            },
            Expr::Super(s) => {
                push_text(out, around("(super ", &s.method.lexeme, ")"));
            },
            Expr::This(_) => {
                push_str(out, "this");
            },
            Expr::Unary(u) => {
                push_text(out, around("(", &u.operator.lexeme, " "));
                u.right.render(out);
                push_str(out, ")");
            },
            Expr::Variable(v) => {
                push_literal(out, &v.name.literal);
            },
        }
        assert(pieces_view(out@) =~= start + rendering(self@));
    }

    /// The expression as text.
    pub fn pieces(&self) -> (r: Vec<Piece>)
        ensures
            pieces_view(r@) == rendering(self@),
    {
        let mut r: Vec<Piece> = Vec::new();
        self.render(&mut r);
        assert(pieces_view(r@) =~= rendering(self@));
        r
    }
}

} // verus!
