//! Expressions.
use vstd::prelude::*;
use crate::object::{Object, ObjectView};
use crate::resolvable::Resolvable;
use crate::token::{Token, TokenView};

verus! {

#[derive(Debug, PartialEq)]
pub enum Expr {
    Assign(AssignExpr),
    Binary(BinaryExpr),
    Call(CallExpr),
    Get(GetExpr),
    Grouping(GroupingExpr),
    Literal(LiteralExpr),
    Logical(LogicalExpr),
    SetField(SetExpr),
    Super(SuperExpr),
    This(ThisExpr),
    Unary(UnaryExpr),
    Variable(VariableExpr),
}

/// `name = value`. `distance` is the number of scopes between the use and the
/// scope that binds `name`; while it is unset the name is looked up among the
/// globals.
#[derive(Debug, PartialEq)]
pub struct AssignExpr {
    pub name: Token,
    pub value: Box<Expr>,
    pub distance: Option<usize>,
}

#[derive(Debug, PartialEq)]
pub struct BinaryExpr {
    pub left: Box<Expr>,
    pub operator: Token,
    pub right: Box<Expr>,
}

/// A call; `paren` is the closing parenthesis, whose line a failing call reports.
#[derive(Debug, PartialEq)]
pub struct CallExpr {
    pub callee: Box<Expr>,
    pub paren: Token,
    pub arguments: Vec<Expr>,
}

/// `object.name`, read.
#[derive(Debug, PartialEq)]
pub struct GetExpr {
    pub object: Box<Expr>,
    pub name: Token,
}

#[derive(Debug, PartialEq)]
pub struct GroupingExpr {
    pub expression: Box<Expr>,
}

#[derive(Debug, PartialEq)]
pub struct LiteralExpr {
    pub literal: Object,
}

/// `and` and `or`, which give back one of their operands.
#[derive(Debug, PartialEq)]
pub struct LogicalExpr {
    pub left: Box<Expr>,
    pub operator: Token,
    pub right: Box<Expr>,
}

/// `object.name = value`.
#[derive(Debug, PartialEq)]
pub struct SetExpr {
    pub object: Box<Expr>,
    pub name: Token,
    pub value: Box<Expr>,
}

/// `super.method`.
#[derive(Debug, PartialEq)]
pub struct SuperExpr {
    pub keyword: Token,
    pub method: Token,
    pub distance: Option<usize>,
}

#[derive(Debug, PartialEq)]
pub struct ThisExpr {
    pub keyword: Token,
    pub distance: Option<usize>,
}

#[derive(Debug, PartialEq)]
pub struct UnaryExpr {
    pub operator: Token,
    pub right: Box<Expr>,
}

#[derive(Debug, PartialEq)]
pub struct VariableExpr {
    pub name: Token,
    pub distance: Option<usize>,
}

/// The mathematical value of a [`VariableExpr`].
pub struct VariableView {
    pub name: TokenView,
    pub distance: Option<usize>,
}

/// The mathematical value of an [`Expr`]: a tree over sequences and token values.
pub enum ExprView {
    Assign { name: TokenView, value: Box<ExprView>, distance: Option<usize> },
    Binary { left: Box<ExprView>, operator: TokenView, right: Box<ExprView> },
    Call { callee: Box<ExprView>, paren: TokenView, arguments: Seq<ExprView> },
    Get { object: Box<ExprView>, name: TokenView },
    Grouping { expression: Box<ExprView> },
    Literal { literal: ObjectView },
    Logical { left: Box<ExprView>, operator: TokenView, right: Box<ExprView> },
    SetField { object: Box<ExprView>, name: TokenView, value: Box<ExprView> },
    Super { keyword: TokenView, method: TokenView, distance: Option<usize> },
    This { keyword: TokenView, distance: Option<usize> },
    Unary { operator: TokenView, right: Box<ExprView> },
    Variable(VariableView),
}

impl View for VariableExpr {
    type V = VariableView;

    open spec fn view(&self) -> VariableView {
        VariableView { name: self.name@, distance: self.distance }
    }
}

/// The value of an expression.
pub open spec fn expr_view(e: Expr) -> ExprView
    decreases e,
{
    match e {
        Expr::Assign(a) => ExprView::Assign {
            name: a.name@,
            value: Box::new(expr_view(*a.value)),
            distance: a.distance,
        },
        Expr::Binary(b) => ExprView::Binary {
            left: Box::new(expr_view(*b.left)),
            operator: b.operator@,
            right: Box::new(expr_view(*b.right)),
        },
        Expr::Call(c) => ExprView::Call {
            callee: Box::new(expr_view(*c.callee)),
            paren: c.paren@,
            arguments: exprs_view(c.arguments@),
        },
        Expr::Get(g) => ExprView::Get { object: Box::new(expr_view(*g.object)), name: g.name@ },
        Expr::Grouping(g) => ExprView::Grouping { expression: Box::new(expr_view(*g.expression)) },
        Expr::Literal(l) => ExprView::Literal { literal: l.literal@ },
        Expr::Logical(b) => ExprView::Logical {
            left: Box::new(expr_view(*b.left)),
            operator: b.operator@,
            right: Box::new(expr_view(*b.right)),
        },
        Expr::SetField(s) => ExprView::SetField {
            object: Box::new(expr_view(*s.object)),
            name: s.name@,
            value: Box::new(expr_view(*s.value)),
        },
        Expr::Super(s) => ExprView::Super {
            keyword: s.keyword@,
            method: s.method@,
            distance: s.distance,
        },
        Expr::This(t) => ExprView::This { keyword: t.keyword@, distance: t.distance },
        Expr::Unary(u) => ExprView::Unary {
            operator: u.operator@,
            right: Box::new(expr_view(*u.right)),
        },
        Expr::Variable(v) => ExprView::Variable(v@),
    }
}

/// The values of a sequence of expressions. (The test of the index is there
/// for the proof of termination; no index fails it.)
pub open spec fn exprs_view(exprs: Seq<Expr>) -> Seq<ExprView>
    decreases exprs,
{
    Seq::new(
        exprs.len(),
        |i: int|
            if 0 <= i < exprs.len() {
                expr_view(exprs[i])
            } else {
                ExprView::Literal { literal: ObjectView::Nil }
            },
    )
}

impl View for Expr {
    type V = ExprView;

    open spec fn view(&self) -> ExprView {
        expr_view(*self)
    }
}

impl AssignExpr {
    pub fn new(name: Token, value: Expr) -> (r: AssignExpr)
        ensures
            r == (AssignExpr { name, value: Box::new(value), distance: None }),
    {
        AssignExpr { name: name, value: Box::new(value), distance: None }
    }
}

impl BinaryExpr {
    pub fn new(left: Expr, operator: Token, right: Expr) -> (r: BinaryExpr)
        ensures
            r == (BinaryExpr { left: Box::new(left), operator, right: Box::new(right) }),
    {
        BinaryExpr { left: Box::new(left), operator: operator, right: Box::new(right) }
    }
}

impl CallExpr {
    pub fn new(callee: Expr, paren: Token, arguments: Vec<Expr>) -> (r: CallExpr)
        ensures
            r == (CallExpr { callee: Box::new(callee), paren, arguments }),
    {
        CallExpr { callee: Box::new(callee), paren: paren, arguments: arguments }
    }
}

impl GetExpr {
    pub fn new(object: Expr, name: Token) -> (r: GetExpr)
        ensures
            r == (GetExpr { object: Box::new(object), name }),
    {
        GetExpr { object: Box::new(object), name: name }
    }
}

impl GroupingExpr {
    pub fn new(expression: Expr) -> (r: GroupingExpr)
        ensures
            r == (GroupingExpr { expression: Box::new(expression) }),
    {
        GroupingExpr { expression: Box::new(expression) }
    }
}

impl LiteralExpr {
    pub fn new(literal: Object) -> (r: LiteralExpr)
        ensures
            r == (LiteralExpr { literal }),
    {
        LiteralExpr { literal }
    }
}

impl LogicalExpr {
    pub fn new(left: Expr, operator: Token, right: Expr) -> (r: LogicalExpr)
        ensures
            r == (LogicalExpr { left: Box::new(left), operator, right: Box::new(right) }),
    {
        LogicalExpr { left: Box::new(left), operator: operator, right: Box::new(right) }
    }
}

impl SetExpr {
    pub fn new(object: Expr, name: Token, value: Expr) -> (r: SetExpr)
        ensures
            r == (SetExpr { object: Box::new(object), name, value: Box::new(value) }),
    {
        SetExpr { object: Box::new(object), name: name, value: Box::new(value) }
    }
}

impl SuperExpr {
    pub fn new(keyword: Token, method: Token) -> (r: SuperExpr)
        ensures
            r == (SuperExpr { keyword, method, distance: None }),
    {
        SuperExpr { keyword: keyword, method: method, distance: None }
    }
}

impl ThisExpr {
    pub fn new(keyword: Token) -> (r: ThisExpr)
        ensures
            r == (ThisExpr { keyword, distance: None }),
    {
        ThisExpr { keyword: keyword, distance: None }
    }
}

impl UnaryExpr {
    pub fn new(operator: Token, right: Expr) -> (r: UnaryExpr)
        ensures
            r == (UnaryExpr { operator, right: Box::new(right) }),
    {
        UnaryExpr { operator: operator, right: Box::new(right) }
    }
}

impl VariableExpr {
    pub fn new(name: Token) -> (r: VariableExpr)
        ensures
            r == (VariableExpr { name, distance: None }),
    {
        VariableExpr { name: name, distance: None }
    }
}

impl Resolvable for AssignExpr {
    open spec fn resolved_name(&self) -> Token {
        self.name
    }

    open spec fn resolved_distance(&self) -> Option<usize> {
        self.distance
    }

    fn name(&self) -> (r: &Token) {
        &self.name
    }

    fn set_distance(&mut self, distance: usize)
        ensures
            final(self).value == old(self).value,
    {
        self.distance = Some(distance);
    }

    fn get_distance(&self) -> (r: Option<usize>) {
        self.distance
    }
}

impl Resolvable for SuperExpr {
    open spec fn resolved_name(&self) -> Token {
        self.keyword
    }

    open spec fn resolved_distance(&self) -> Option<usize> {
        self.distance
    }

    fn name(&self) -> (r: &Token) {
        &self.keyword
    }

    fn set_distance(&mut self, distance: usize)
        ensures
            final(self).method == old(self).method,
    {
        self.distance = Some(distance);
    }

    fn get_distance(&self) -> (r: Option<usize>) {
        self.distance
    }
}

impl Resolvable for ThisExpr {
    open spec fn resolved_name(&self) -> Token {
        self.keyword
    }

    open spec fn resolved_distance(&self) -> Option<usize> {
        self.distance
    }

    fn name(&self) -> (r: &Token) {
        &self.keyword
    }

    fn set_distance(&mut self, distance: usize) {
        self.distance = Some(distance);
    }

    fn get_distance(&self) -> (r: Option<usize>) {
        self.distance
    }
}

impl Resolvable for VariableExpr {
    open spec fn resolved_name(&self) -> Token {
        self.name
    }

    open spec fn resolved_distance(&self) -> Option<usize> {
        self.distance
    }

    fn name(&self) -> (r: &Token) {
        &self.name
    }

    fn set_distance(&mut self, distance: usize) {
        self.distance = Some(distance);
    }

    fn get_distance(&self) -> (r: Option<usize>) {
        self.distance
    }
}

} // verus!
