//! Statements and declarations.
use vstd::prelude::*;
use crate::expr::{expr_view, Expr, ExprView, VariableExpr, VariableView};
use crate::token::{tokens_view, Token, TokenView};

verus! {

#[derive(Debug, PartialEq)]
pub enum Stmt {
    Block { statements: Vec<Stmt> },
    ClassDeclaration { class_declaration: ClassDeclaration },
    Expression { expression: Expr },
    FunctionDeclaration { function_declaration: FunctionDeclaration },
    If { condition: Expr, then_branch: Box<Stmt>, else_branch: Option<Box<Stmt>> },
    While { condition: Expr, body: Box<Stmt> },
    Print { expression: Expr },
    Return { keyword: Token, value: Option<Expr> },
    Var { name: Token, initializer: Option<Expr> },
}

#[derive(Debug, PartialEq)]
pub struct FunctionDeclaration {
    pub name: Token,
    pub params: Vec<Token>,
    pub body: Vec<Stmt>,
}

#[derive(Debug, PartialEq)]
pub struct ClassDeclaration {
    pub name: Token,
    pub superclass: Option<VariableExpr>,
    pub methods: Vec<FunctionDeclaration>,
}

/// The mathematical value of a [`Stmt`].
pub enum StmtView {
    Block { statements: Seq<StmtView> },
    ClassDeclaration { class_declaration: ClassView },
    Expression { expression: ExprView },
    FunctionDeclaration { function_declaration: FunctionView },
    If { condition: ExprView, then_branch: Box<StmtView>, else_branch: Option<Box<StmtView>> },
    While { condition: ExprView, body: Box<StmtView> },
    Print { expression: ExprView },
    Return { keyword: TokenView, value: Option<ExprView> },
    Var { name: TokenView, initializer: Option<ExprView> },
}

/// The mathematical value of a [`FunctionDeclaration`].
pub struct FunctionView {
    pub name: TokenView,
    pub params: Seq<TokenView>,
    pub body: Seq<StmtView>,
}

/// The mathematical value of a [`ClassDeclaration`].
pub struct ClassView {
    pub name: TokenView,
    pub superclass: Option<VariableView>,
    pub methods: Seq<FunctionView>,
}

/// The value of an optional expression.
pub open spec fn optional_expr_view(e: Option<Expr>) -> Option<ExprView> {
    match e {
        Some(e) => Some(expr_view(e)),
        None => None,
    }
}

/// The value of a statement.
pub open spec fn stmt_view(s: Stmt) -> StmtView
    decreases s,
{
    match s {
        Stmt::Block { statements } => StmtView::Block { statements: stmts_view(statements@) },
        Stmt::ClassDeclaration { class_declaration } => StmtView::ClassDeclaration {
            class_declaration: ClassView {
                name: class_declaration.name@,
                superclass: match class_declaration.superclass {
                    Some(v) => Some(v@),
                    None => None,
                },
                methods: functions_view(class_declaration.methods@),
            },
        },
        Stmt::Expression { expression } => StmtView::Expression { expression: expr_view(expression) },
        Stmt::FunctionDeclaration { function_declaration } => StmtView::FunctionDeclaration {
            function_declaration: function_view(function_declaration),
        },
        Stmt::If { condition, then_branch, else_branch } => StmtView::If {
            condition: expr_view(condition),
            then_branch: Box::new(stmt_view(*then_branch)),
            else_branch: match else_branch {
                Some(b) => Some(Box::new(stmt_view(*b))),
                None => None,
            },
        },
        Stmt::While { condition, body } => StmtView::While {
            condition: expr_view(condition),
            body: Box::new(stmt_view(*body)),
        },
        Stmt::Print { expression } => StmtView::Print { expression: expr_view(expression) },
        Stmt::Return { keyword, value } => StmtView::Return {
            keyword: keyword@,
            value: optional_expr_view(value),
        },
        Stmt::Var { name, initializer } => StmtView::Var {
            name: name@,
            initializer: optional_expr_view(initializer),
        },
    }
}

/// The value of a function declaration.
pub open spec fn function_view(f: FunctionDeclaration) -> FunctionView
    decreases f,
{
    FunctionView { name: f.name@, params: tokens_view(f.params@), body: stmts_view(f.body@) }
}

/// The values of a sequence of statements. (The test of the index is there
/// for the proof of termination; no index fails it.)
pub open spec fn stmts_view(stmts: Seq<Stmt>) -> Seq<StmtView>
    decreases stmts,
{
    Seq::new(
        stmts.len(),
        |i: int|
            if 0 <= i < stmts.len() {
                stmt_view(stmts[i])
            } else {
                StmtView::Block { statements: Seq::empty() }
            },
    )
}

/// The values of a sequence of function declarations. (The test of the
/// index is there for the proof of termination; no index fails it.)
pub open spec fn functions_view(functions: Seq<FunctionDeclaration>) -> Seq<FunctionView>
    decreases functions,
{
    Seq::new(
        functions.len(),
        |i: int|
            if 0 <= i < functions.len() {
                function_view(functions[i])
            } else {
                FunctionView { name: functions[0].name@, params: Seq::empty(), body: Seq::empty() }
            },
    )
}

impl View for Stmt {
    type V = StmtView;

    open spec fn view(&self) -> StmtView {
        stmt_view(*self)
    }
}

impl View for FunctionDeclaration {
    type V = FunctionView;

    open spec fn view(&self) -> FunctionView {
        function_view(*self)
    }
}

impl Stmt {
    pub fn is_function_declaration(&self) -> (r: bool)
        ensures
            r == (self is FunctionDeclaration),
    {
        match self {
            Stmt::FunctionDeclaration { .. } => true,
            _ => false,
        }
    }

    pub fn into_function_declaration(self) -> (r: Option<FunctionDeclaration>)
        ensures
            r == match self {
                Stmt::FunctionDeclaration { function_declaration } => Some(function_declaration),
                _ => None,
            },
    {
        match self {
            Stmt::FunctionDeclaration { function_declaration } => Some(function_declaration),
            _ => None,
        }
    }
}

} // verus!
