//! What the resolver computes, stated over syntax trees and scope stacks.
//!
//! A scope maps each name declared in it to a flag: false while the name's
//! initializer is being resolved, true once the name is defined. The global
//! scope is not on the stack.
use vstd::prelude::*;
use crate::err::LoxErrView;
use crate::expr::{ExprView, VariableView};
use crate::stmt::{ClassView, FunctionView, StmtView};
use crate::token::TokenView;

verus! {

/// The kind of function whose body is being resolved.
#[derive(Debug, PartialEq, Eq, Clone, Copy, Structural)]
pub enum FunctionType {
    NoFunction,
    Function,
    Initializer,
    Method,
}

/// The kind of class whose body is being resolved.
#[derive(Debug, PartialEq, Eq, Clone, Copy, Structural)]
pub enum ClassType {
    NoClass,
    Class,
    SubClass,
}

/// One scope of the resolver.
pub type ScopeView = Map<Seq<char>, bool>;

/// The state of a resolver.
pub struct ResolverView {
    pub scopes: Seq<ScopeView>,
    pub current_function: FunctionType,
    pub current_class: ClassType,
    pub errors: Seq<LoxErrView>,
    pub had_resolve_error: bool,
}

/// What resolving a part gives: the annotated part, the state after it, and
/// whether the part was resolved to its end.
pub struct Resolved<T> {
    pub node: T,
    pub state: ResolverView,
    pub result: Result<(), LoxErrView>,
}

/// The number of scope boundaries between a use of `name` inside the innermost
/// scope and the nearest scope that declares it; none if only the globals can
/// hold the name.
pub open spec fn hops(scopes: Seq<ScopeView>, name: Seq<char>) -> Option<nat>
    decreases scopes.len(),
{
    if scopes.len() == 0 {
        None
    } else if scopes.last().contains_key(name) {
        Some(0)
    } else {
        match hops(scopes.drop_last(), name) {
            Some(d) => Some(d + 1),
            None => None,
        }
    }
}

/// The distance of a name is the number of scopes that were begun after the
/// scope that declares it and have not ended: counted from the innermost
/// scope, the scope at that distance declares the name and no nearer scope
/// does. A name without a distance is declared in no scope.
pub proof fn law_distance_counts_scopes(scopes: Seq<ScopeView>, name: Seq<char>)
    ensures
        match hops(scopes, name) {
            Some(d) => {
                &&& d < scopes.len()
                &&& scopes[scopes.len() - 1 - d].contains_key(name)
                &&& forall|j: int|
                    scopes.len() - 1 - d < j < scopes.len() ==> !scopes[j].contains_key(name)
            },
            None => forall|j: int| 0 <= j < scopes.len() ==> !scopes[j].contains_key(name),
        },
    decreases scopes.len(),
{
    if scopes.len() > 0 && !scopes.last().contains_key(name) {
        let outer = scopes.drop_last();
        law_distance_counts_scopes(outer, name);
        assert(forall|j: int| 0 <= j < outer.len() ==> outer[j] == scopes[j]);
    }
}

/// A scope that is begun and ended again leaves every distance as it was, and
/// inside it every name declared outside is one scope further away.
pub proof fn law_scope_adds_one(scopes: Seq<ScopeView>, name: Seq<char>)
    ensures
        hops(scopes.push(Map::empty()).drop_last(), name) == hops(scopes, name),
        hops(scopes.push(Map::empty()), name) == match hops(scopes, name) {
            Some(d) => Some(d + 1),
            None => None,
        },
{
    assert(scopes.push(Map::empty()).drop_last() =~= scopes);
}

/// The distance that a node for `name` carries after it was resolved: the
/// hops to the declaring scope, or what it carried before where there is none.
pub open spec fn located(scopes: Seq<ScopeView>, name: Seq<char>, before: Option<usize>) -> Option<
    usize,
> {
    match hops(scopes, name) {
        Some(d) => Some(d as usize),
        None => before,
    }
}

pub open spec fn resolve_error(line: usize, message: Seq<char>) -> LoxErrView {
    LoxErrView::Resolve { line, message }
}

/// The state with a new innermost scope.
pub open spec fn begun(st: ResolverView) -> ResolverView {
    ResolverView { scopes: st.scopes.push(Map::empty()), ..st }
}

/// The state without its innermost scope.
pub open spec fn ended(st: ResolverView) -> ResolverView {
    if st.scopes.len() == 0 {
        st
    } else {
        ResolverView { scopes: st.scopes.drop_last(), ..st }
    }
}

/// The state with `name` set to `flag` in the innermost scope, if there is one.
pub open spec fn bound(st: ResolverView, name: Seq<char>, flag: bool) -> ResolverView {
    if st.scopes.len() == 0 {
        st
    } else {
        ResolverView {
            scopes: st.scopes.update(st.scopes.len() - 1, st.scopes.last().insert(name, flag)),
            ..st
        }
    }
}

/// May `name` be declared? Not twice in one scope; among the globals, always.
pub open spec fn declarable(st: ResolverView, name: Seq<char>) -> bool {
    st.scopes.len() == 0 || !st.scopes.last().contains_key(name)
}

pub open spec fn already_declared(name: TokenView) -> LoxErrView {
    resolve_error(name.line, "Already a variable with this name in this scope."@)
}

/// The state after `name` was declared and defined.
pub open spec fn introduced(st: ResolverView, name: Seq<char>) -> ResolverView {
    bound(bound(st, name, false), name, true)
}

/// The state with one more diagnostic.
pub open spec fn recorded(st: ResolverView, error: LoxErrView) -> ResolverView {
    ResolverView { errors: st.errors.push(error), had_resolve_error: true, ..st }
}

pub open spec fn with_function(st: ResolverView, kind: FunctionType) -> ResolverView {
    ResolverView { current_function: kind, ..st }
}

pub open spec fn with_class(st: ResolverView, kind: ClassType) -> ResolverView {
    ResolverView { current_class: kind, ..st }
}

/// Is the name being declared right now in the innermost scope?
pub open spec fn in_own_initializer(st: ResolverView, name: Seq<char>) -> bool {
    st.scopes.len() > 0 && st.scopes.last().contains_key(name) && !st.scopes.last()[name]
}

/// What resolving an expression gives: the annotated expression, and the
/// failure if there was one. The state of the resolver stays as it is.
pub struct ResolvedExpr {
    pub node: ExprView,
    pub result: Result<(), LoxErrView>,
}

pub struct ResolvedExprs {
    pub nodes: Seq<ExprView>,
    pub result: Result<(), LoxErrView>,
}

/// A variable read, resolved.
pub open spec fn resolve_variable(v: VariableView, st: ResolverView) -> (
    VariableView,
    Result<(), LoxErrView>,
) {
    if in_own_initializer(st, v.name.lexeme) {
        (v, Err(resolve_error(v.name.line, "Can't read local variable in its own initializer."@)))
    } else {
        (VariableView { name: v.name, distance: located(st.scopes, v.name.lexeme, v.distance) }, Ok(()))
    }
}

/// An expression, resolved: every variable, assignment, `this` and `super`
/// in it carries its distance, up to the first failure.
pub open spec fn resolve_expr(e: ExprView, st: ResolverView) -> ResolvedExpr
    decreases e,
{
    match e {
        ExprView::Assign { name, value, distance } => {
            let v = resolve_expr(*value, st);
            ResolvedExpr {
                node: ExprView::Assign {
                    name,
                    value: Box::new(v.node),
                    distance: if v.result is Ok {
                        located(st.scopes, name.lexeme, distance)
                    } else {
                        distance
                    },
                },
                result: v.result,
            }
        },
        ExprView::Binary { left, operator, right } => {
            let l = resolve_expr(*left, st);
            if l.result is Err {
                ResolvedExpr {
                    node: ExprView::Binary { left: Box::new(l.node), operator, right },
                    result: l.result,
                }
            } else {
                let r = resolve_expr(*right, st);
                ResolvedExpr {
                    node: ExprView::Binary {
                        left: Box::new(l.node),
                        operator,
                        right: Box::new(r.node),
                    },
                    result: r.result,
                }
            }
        },
        ExprView::Call { callee, paren, arguments } => {
            let c = resolve_expr(*callee, st);
            if c.result is Err {
                ResolvedExpr {
                    node: ExprView::Call { callee: Box::new(c.node), paren, arguments },
                    result: c.result,
                }
            } else {
                let a = resolve_exprs(arguments, st);
                ResolvedExpr {
                    node: ExprView::Call { callee: Box::new(c.node), paren, arguments: a.nodes },
                    result: a.result,
                }
            }
        },
        ExprView::Get { object, name } => {
            let o = resolve_expr(*object, st);
            ResolvedExpr { node: ExprView::Get { object: Box::new(o.node), name }, result: o.result }
        },
        ExprView::Grouping { expression } => {
            let inner = resolve_expr(*expression, st);
            ResolvedExpr {
                node: ExprView::Grouping { expression: Box::new(inner.node) },
                result: inner.result,
            }
        },
        ExprView::Literal { literal } => ResolvedExpr { node: e, result: Ok(()) },
        ExprView::Logical { left, operator, right } => {
            let l = resolve_expr(*left, st);
            if l.result is Err {
                ResolvedExpr {
                    node: ExprView::Logical { left: Box::new(l.node), operator, right },
                    result: l.result,
                }
            } else {
                let r = resolve_expr(*right, st);
                ResolvedExpr {
                    node: ExprView::Logical {
                        left: Box::new(l.node),
                        operator,
                        right: Box::new(r.node),
                    },
                    result: r.result,
                }
            }
        },
        ExprView::SetField { object, name, value } => {
            let v = resolve_expr(*value, st);
            if v.result is Err {
                ResolvedExpr {
                    node: ExprView::SetField { object, name, value: Box::new(v.node) },
                    result: v.result,
                }
            } else {
                let o = resolve_expr(*object, st);
                ResolvedExpr {
                    node: ExprView::SetField {
                        object: Box::new(o.node),
                        name,
                        value: Box::new(v.node),
                    },
                    result: o.result,
                }
            }
        },
        ExprView::Super { keyword, method, distance } => {
            if st.current_class == ClassType::NoClass {
                ResolvedExpr {
                    node: e,
                    result: Err(
                        resolve_error(keyword.line, "Can't use 'super' outside of a class."@),
                    ),
                }
            } else if st.current_class != ClassType::SubClass {
                ResolvedExpr {
                    node: e,
                    result: Err(
                        resolve_error(
                            keyword.line,
                            "Can't use 'super' in a class with no superclass."@,
                        ),
                    ),
                }
            } else {
                ResolvedExpr {
                    node: ExprView::Super {
                        keyword,
                        method,
                        distance: located(st.scopes, keyword.lexeme, distance),
                    },
                    result: Ok(()),
                }
            }
        },
        ExprView::This { keyword, distance } => {
            if st.current_class == ClassType::NoClass {
                ResolvedExpr {
                    node: e,
                    result: Err(
                        resolve_error(keyword.line, "Can't use 'this' outside of a class."@),
                    ),
                }
            } else {
                ResolvedExpr {
                    node: ExprView::This {
                        keyword,
                        distance: located(st.scopes, keyword.lexeme, distance),
                    },
                    result: Ok(()),
                }
            }
        },
        ExprView::Unary { operator, right } => {
            let r = resolve_expr(*right, st);
            ResolvedExpr {
                node: ExprView::Unary { operator, right: Box::new(r.node) },
                result: r.result,
            }
        },
        ExprView::Variable(v) => {
            let (node, result) = resolve_variable(v, st);
            ResolvedExpr { node: ExprView::Variable(node), result }
        },
    }
}

/// The expressions of a sequence, resolved from the first on, up to the first
/// failure; those behind it stay as they are.
pub open spec fn resolve_exprs(exprs: Seq<ExprView>, st: ResolverView) -> ResolvedExprs
    decreases exprs,
{
    if exprs.len() == 0 {
        ResolvedExprs { nodes: exprs, result: Ok(()) }
    } else {
        let init = resolve_exprs(exprs.drop_last(), st);
        if init.result is Err {
            ResolvedExprs { nodes: init.nodes.push(exprs.last()), result: init.result }
        } else {
            let last = resolve_expr(exprs.last(), st);
            ResolvedExprs { nodes: init.nodes.push(last.node), result: last.result }
        }
    }
}

/// An optional expression, resolved.
pub open spec fn resolve_optional(e: Option<ExprView>, st: ResolverView) -> (
    Option<ExprView>,
    Result<(), LoxErrView>,
) {
    match e {
        Some(e) => {
            let r = resolve_expr(e, st);
            (Some(r.node), r.result)
        },
        None => (None, Ok(())),
    }
}

/// The parameters of a function, declared and defined one after the other, up
/// to the first that cannot be declared.
pub open spec fn declare_all(params: Seq<TokenView>, st: ResolverView) -> Resolved<()>
    decreases params.len(),
{
    if params.len() == 0 {
        Resolved { node: (), state: st, result: Ok(()) }
    } else {
        let init = declare_all(params.drop_last(), st);
        if init.result is Err {
            init
        } else if !declarable(init.state, params.last().lexeme) {
            Resolved { node: (), state: init.state, result: Err(already_declared(params.last())) }
        } else {
            Resolved {
                node: (),
                state: introduced(init.state, params.last().lexeme),
                result: Ok(()),
            }
        }
    }
}

/// A statement, resolved.
pub open spec fn resolve_stmt(s: StmtView, st: ResolverView) -> Resolved<StmtView>
    decreases s,
{
    match s {
        StmtView::Block { statements } => {
            let inner = resolve_stmts(statements, begun(st));
            Resolved {
                node: StmtView::Block { statements: inner.node },
                state: ended(inner.state),
                result: Ok(()),
            }
        },
        StmtView::ClassDeclaration { class_declaration } => {
            let c = resolve_class(class_declaration, st);
            Resolved {
                node: StmtView::ClassDeclaration { class_declaration: c.node },
                state: c.state,
                result: c.result,
            }
        },
        StmtView::Expression { expression } => {
            let e = resolve_expr(expression, st);
            Resolved {
                node: StmtView::Expression { expression: e.node },
                state: st,
                result: e.result,
            }
        },
        StmtView::FunctionDeclaration { function_declaration } => {
            if !declarable(st, function_declaration.name.lexeme) {
                Resolved { node: s, state: st, result: Err(already_declared(function_declaration.name)) }
            } else {
                let f = resolve_function(
                    function_declaration,
                    introduced(st, function_declaration.name.lexeme),
                    FunctionType::Function,
                );
                Resolved {
                    node: StmtView::FunctionDeclaration { function_declaration: f.node },
                    state: f.state,
                    result: f.result,
                }
            }
        },
        StmtView::If { condition, then_branch, else_branch } => {
            let c = resolve_expr(condition, st);
            if c.result is Err {
                Resolved {
                    node: StmtView::If { condition: c.node, then_branch, else_branch },
                    state: st,
                    result: c.result,
                }
            } else {
                let t = resolve_stmt(*then_branch, st);
                if t.result is Err {
                    Resolved {
                        node: StmtView::If {
                            condition: c.node,
                            then_branch: Box::new(t.node),
                            else_branch,
                        },
                        state: t.state,
                        result: t.result,
                    }
                } else {
                    match else_branch {
                        Some(other) => {
                            let o = resolve_stmt(*other, t.state);
                            Resolved {
                                node: StmtView::If {
                                    condition: c.node,
                                    then_branch: Box::new(t.node),
                                    else_branch: Some(Box::new(o.node)),
                                },
                                state: o.state,
                                result: o.result,
                            }
                        },
                        None => Resolved {
                            node: StmtView::If {
                                condition: c.node,
                                then_branch: Box::new(t.node),
                                else_branch: None,
                            },
                            state: t.state,
                            result: Ok(()),
                        },
                    }
                }
            }
        },
        StmtView::While { condition, body } => {
            let c = resolve_expr(condition, st);
            if c.result is Err {
                Resolved {
                    node: StmtView::While { condition: c.node, body },
                    state: st,
                    result: c.result,
                }
            } else {
                let b = resolve_stmt(*body, st);
                Resolved {
                    node: StmtView::While { condition: c.node, body: Box::new(b.node) },
                    state: b.state,
                    result: b.result,
                }
            }
        },
        StmtView::Print { expression } => {
            let e = resolve_expr(expression, st);
            Resolved { node: StmtView::Print { expression: e.node }, state: st, result: e.result }
        },
        StmtView::Return { keyword, value } => {
            if st.current_function == FunctionType::NoFunction {
                Resolved {
                    node: s,
                    state: st,
                    result: Err(resolve_error(keyword.line, "Can't return from top-level code."@)),
                }
            } else if value is Some && st.current_function == FunctionType::Initializer {
                Resolved {
                    node: s,
                    state: st,
                    result: Err(
                        resolve_error(keyword.line, "Can't return a value from an initializer."@),
                    ),
                }
            } else {
                let (node, result) = resolve_optional(value, st);
                Resolved { node: StmtView::Return { keyword, value: node }, state: st, result }
            }
        },
        StmtView::Var { name, initializer } => {
            if !declarable(st, name.lexeme) {
                Resolved { node: s, state: st, result: Err(already_declared(name)) }
            } else {
                let declared = bound(st, name.lexeme, false);
                let (node, result) = resolve_optional(initializer, declared);
                Resolved {
                    node: StmtView::Var { name, initializer: node },
                    state: bound(declared, name.lexeme, true),
                    result,
                }
            }
        },
    }
}

/// The statements of a sequence, resolved one after the other. A statement
/// that fails is left where the failure arose; the failure is recorded and the
/// next statement is resolved.
pub open spec fn resolve_stmts(stmts: Seq<StmtView>, st: ResolverView) -> Resolved<Seq<StmtView>>
    decreases stmts,
{
    if stmts.len() == 0 {
        Resolved { node: stmts, state: st, result: Ok(()) }
    } else {
        let init = resolve_stmts(stmts.drop_last(), st);
        let last = resolve_stmt(stmts.last(), init.state);
        Resolved {
            node: init.node.push(last.node),
            state: match last.result {
                Ok(_) => last.state,
                Err(e) => recorded(last.state, e),
            },
            result: Ok(()),
        }
    }
}

/// A function, resolved as one of the kind `kind`: its parameters and its body
/// in a scope of their own. Whether or not a parameter fails, the scope is
/// ended again and the kind of function around is what it was.
pub open spec fn resolve_function(f: FunctionView, st: ResolverView, kind: FunctionType) -> Resolved<
    FunctionView,
>
    decreases f,
{
    let params = declare_all(f.params, begun(with_function(st, kind)));
    if params.result is Err {
        Resolved {
            node: f,
            state: with_function(ended(params.state), st.current_function),
            result: params.result,
        }
    } else {
        let body = resolve_stmts(f.body, params.state);
        Resolved {
            node: FunctionView { name: f.name, params: f.params, body: body.node },
            state: with_function(ended(body.state), st.current_function),
            result: Ok(()),
        }
    }
}

/// The kind of function that a method of this name is.
pub open spec fn method_kind(name: Seq<char>) -> FunctionType {
    if name == "init"@ {
        FunctionType::Initializer
    } else {
        FunctionType::Method
    }
}

/// The methods of a class, resolved from the first on, up to the first
/// failure.
pub open spec fn resolve_methods(methods: Seq<FunctionView>, st: ResolverView) -> Resolved<
    Seq<FunctionView>,
>
    decreases methods,
{
    if methods.len() == 0 {
        Resolved { node: methods, state: st, result: Ok(()) }
    } else {
        let init = resolve_methods(methods.drop_last(), st);
        if init.result is Err {
            Resolved { node: init.node.push(methods.last()), state: init.state, result: init.result }
        } else {
            let last = resolve_function(
                methods.last(),
                init.state,
                method_kind(methods.last().name.lexeme),
            );
            Resolved { node: init.node.push(last.node), state: last.state, result: last.result }
        }
    }
}

/// The state in which the methods of a class are resolved: inside a scope
/// that holds `this`, which for a subclass lies inside one that holds `super`.
pub open spec fn class_body(st: ResolverView, subclass: bool) -> ResolverView {
    let outer = if subclass {
        bound(begun(st), "super"@, true)
    } else {
        st
    };
    bound(begun(outer), "this"@, true)
}

/// A class declaration, resolved. Whether or not a part of it fails, the
/// scopes that were begun for it are ended again and the kind of class around
/// is what it was.
pub open spec fn resolve_class(c: ClassView, st: ResolverView) -> Resolved<ClassView>
    decreases c,
{
    let entered = with_class(st, ClassType::Class);
    if !declarable(entered, c.name.lexeme) {
        Resolved { node: c, state: st, result: Err(already_declared(c.name)) }
    } else {
        let named = introduced(entered, c.name.lexeme);
        match c.superclass {
            Some(parent) => {
                if c.name.lexeme == parent.name.lexeme {
                    Resolved {
                        node: c,
                        state: with_class(named, st.current_class),
                        result: Err(
                            resolve_error(parent.name.line, "A class can't inherit from itself."@),
                        ),
                    }
                } else {
                    let sub = with_class(named, ClassType::SubClass);
                    let (node, result) = resolve_variable(parent, sub);
                    if result is Err {
                        Resolved { node: c, state: with_class(named, st.current_class), result }
                    } else {
                        let members = resolve_methods(c.methods, class_body(sub, true));
                        Resolved {
                            node: ClassView {
                                name: c.name,
                                superclass: Some(node),
                                methods: members.node,
                            },
                            state: with_class(ended(ended(members.state)), st.current_class),
                            result: members.result,
                        }
                    }
                }
            },
            None => {
                let members = resolve_methods(c.methods, class_body(named, false));
                Resolved {
                    node: ClassView { name: c.name, superclass: None, methods: members.node },
                    state: with_class(ended(members.state), st.current_class),
                    result: members.result,
                }
            },
        }
    }
}

/// Two states have the same context: as many scopes, and the same kinds of
/// function and of class around.
pub open spec fn same_context(a: ResolverView, b: ResolverView) -> bool {
    &&& a.scopes.len() == b.scopes.len()
    &&& a.current_function == b.current_function
    &&& a.current_class == b.current_class
}

/// Declaring parameters begins and ends no scope.
pub proof fn lemma_declare_all_keeps_context(params: Seq<TokenView>, st: ResolverView)
    ensures
        same_context(declare_all(params, st).state, st),
    decreases params.len(),
{
    if params.len() > 0 {
        lemma_declare_all_keeps_context(params.drop_last(), st);
    }
}

/// Resolving leaves the context as it found it: behind any statements, with
/// or without failures, every scope that was begun is ended and the kinds of
/// function and of class around are restored. A failure only adds to what is
/// recorded.
pub proof fn law_resolution_keeps_context(stmts: Seq<StmtView>, st: ResolverView)
    ensures
        same_context(resolve_stmts(stmts, st).state, st),
    decreases stmts, 0nat,
{
    if stmts.len() > 0 {
        law_resolution_keeps_context(stmts.drop_last(), st);
        lemma_stmt_keeps_context(stmts.last(), resolve_stmts(stmts.drop_last(), st).state);
    }
}

/// One statement leaves the context as it found it, whether it fails or not.
pub proof fn lemma_stmt_keeps_context(s: StmtView, st: ResolverView)
    ensures
        same_context(resolve_stmt(s, st).state, st),
    decreases s, 0nat,
{
    match s {
        StmtView::Block { statements } => {
            law_resolution_keeps_context(statements, begun(st));
        },
        StmtView::ClassDeclaration { class_declaration } => {
            lemma_class_keeps_context(class_declaration, st);
        },
        StmtView::FunctionDeclaration { function_declaration } => {
            if declarable(st, function_declaration.name.lexeme) {
                lemma_function_keeps_context(
                    function_declaration,
                    introduced(st, function_declaration.name.lexeme),
                    FunctionType::Function,
                );
            }
        },
        StmtView::If { condition, then_branch, else_branch } => {
            lemma_stmt_keeps_context(*then_branch, st);
            match else_branch {
                Some(other) => {
                    lemma_stmt_keeps_context(*other, resolve_stmt(*then_branch, st).state);
                },
                None => {},
            }
        },
        StmtView::While { condition, body } => {
            lemma_stmt_keeps_context(*body, st);
        },
        _ => {},
    }
}

/// A function leaves the context as it found it, whether it fails or not.
pub proof fn lemma_function_keeps_context(f: FunctionView, st: ResolverView, kind: FunctionType)
    ensures
        same_context(resolve_function(f, st, kind).state, st),
    decreases f, 0nat,
{
    let opened = begun(with_function(st, kind));
    lemma_declare_all_keeps_context(f.params, opened);
    let params = declare_all(f.params, opened);
    if params.result is Ok {
        law_resolution_keeps_context(f.body, params.state);
    }
}

/// The methods of a class leave the context as they found it, whether one of
/// them fails or not.
pub proof fn lemma_methods_keep_context(methods: Seq<FunctionView>, st: ResolverView)
    ensures
        same_context(resolve_methods(methods, st).state, st),
    decreases methods, 0nat,
{
    if methods.len() > 0 {
        lemma_methods_keep_context(methods.drop_last(), st);
        let init = resolve_methods(methods.drop_last(), st);
        if init.result is Ok {
            lemma_function_keeps_context(
                methods.last(),
                init.state,
                method_kind(methods.last().name.lexeme),
            );
        }
    }
}

/// A class declaration leaves the context as it found it, whether it fails
/// or not.
pub proof fn lemma_class_keeps_context(c: ClassView, st: ResolverView)
    ensures
        same_context(resolve_class(c, st).state, st),
    decreases c, 0nat,
{
    let entered = with_class(st, ClassType::Class);
    if declarable(entered, c.name.lexeme) {
        let named = introduced(entered, c.name.lexeme);
        match c.superclass {
            Some(parent) => {
                let sub = with_class(named, ClassType::SubClass);
                lemma_methods_keep_context(c.methods, class_body(sub, true));
            },
            None => {
                lemma_methods_keep_context(c.methods, class_body(named, false));
            },
        }
    }
}

/// The state of a new resolver: no scope, no function, no class, nothing
/// recorded.
pub open spec fn fresh() -> ResolverView {
    ResolverView {
        scopes: Seq::empty(),
        current_function: FunctionType::NoFunction,
        current_class: ClassType::NoClass,
        errors: Seq::empty(),
        had_resolve_error: false,
    }
}

/// The state says that there was a failure exactly if one is recorded.
pub open spec fn flagged(st: ResolverView) -> bool {
    st.had_resolve_error == (st.errors.len() > 0)
}

/// Declaring parameters records nothing.
pub proof fn lemma_declare_all_records_nothing(params: Seq<TokenView>, st: ResolverView)
    ensures
        declare_all(params, st).state.errors == st.errors,
        declare_all(params, st).state.had_resolve_error == st.had_resolve_error,
    decreases params.len(),
{
    if params.len() > 0 {
        lemma_declare_all_records_nothing(params.drop_last(), st);
    }
}

/// Behind any statements the resolver says that there was a failure exactly
/// if one is recorded, given that it did so before. From a new resolver it
/// does.
pub proof fn law_failures_are_recorded(stmts: Seq<StmtView>, st: ResolverView)
    requires
        flagged(st),
    ensures
        flagged(resolve_stmts(stmts, st).state),
    decreases stmts, 0nat,
{
    if stmts.len() > 0 {
        law_failures_are_recorded(stmts.drop_last(), st);
        lemma_stmt_keeps_flag(stmts.last(), resolve_stmts(stmts.drop_last(), st).state);
    }
}

/// One statement keeps the flag in step with what is recorded.
pub proof fn lemma_stmt_keeps_flag(s: StmtView, st: ResolverView)
    requires
        flagged(st),
    ensures
        flagged(resolve_stmt(s, st).state),
    decreases s, 0nat,
{
    match s {
        StmtView::Block { statements } => {
            law_failures_are_recorded(statements, begun(st));
        },
        StmtView::ClassDeclaration { class_declaration } => {
            lemma_class_keeps_flag(class_declaration, st);
        },
        StmtView::FunctionDeclaration { function_declaration } => {
            if declarable(st, function_declaration.name.lexeme) {
                lemma_function_keeps_flag(
                    function_declaration,
                    introduced(st, function_declaration.name.lexeme),
                    FunctionType::Function,
                );
            }
        },
        StmtView::If { condition, then_branch, else_branch } => {
            lemma_stmt_keeps_flag(*then_branch, st);
            match else_branch {
                Some(other) => {
                    lemma_stmt_keeps_flag(*other, resolve_stmt(*then_branch, st).state);
                },
                None => {},
            }
        },
        StmtView::While { condition, body } => {
            lemma_stmt_keeps_flag(*body, st);
        },
        _ => {},
    }
}

/// A function keeps the flag in step with what is recorded.
pub proof fn lemma_function_keeps_flag(f: FunctionView, st: ResolverView, kind: FunctionType)
    requires
        flagged(st),
    ensures
        flagged(resolve_function(f, st, kind).state),
    decreases f, 0nat,
{
    let opened = begun(with_function(st, kind));
    lemma_declare_all_records_nothing(f.params, opened);
    let params = declare_all(f.params, opened);
    if params.result is Ok {
        law_failures_are_recorded(f.body, params.state);
    }
}

/// The methods of a class keep the flag in step with what is recorded.
pub proof fn lemma_methods_keep_flag(methods: Seq<FunctionView>, st: ResolverView)
    requires
        flagged(st),
    ensures
        flagged(resolve_methods(methods, st).state),
    decreases methods, 0nat,
{
    if methods.len() > 0 {
        lemma_methods_keep_flag(methods.drop_last(), st);
        let init = resolve_methods(methods.drop_last(), st);
        if init.result is Ok {
            lemma_function_keeps_flag(
                methods.last(),
                init.state,
                method_kind(methods.last().name.lexeme),
            );
        }
    }
}

/// A class declaration keeps the flag in step with what is recorded.
pub proof fn lemma_class_keeps_flag(c: ClassView, st: ResolverView)
    requires
        flagged(st),
    ensures
        flagged(resolve_class(c, st).state),
    decreases c, 0nat,
{
    let entered = with_class(st, ClassType::Class);
    if declarable(entered, c.name.lexeme) {
        let named = introduced(entered, c.name.lexeme);
        match c.superclass {
            Some(parent) => {
                let sub = with_class(named, ClassType::SubClass);
                lemma_methods_keep_flag(c.methods, class_body(sub, true));
            },
            None => {
                lemma_methods_keep_flag(c.methods, class_body(named, false));
            },
        }
    }
}

} // verus!
