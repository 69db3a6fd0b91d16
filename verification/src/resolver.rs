//! The resolver: one walk over the syntax tree before it is run, which gives
//! every use of a local name its distance and reports what the static rules
//! forbid. It computes what [`crate::resolution`] describes.
use vstd::prelude::*;
use vstd::hash_map::StringHashMap;
use vstd::string::StringExecFns;
use crate::err::{errors_view, LoxErr, LoxErrView};
use crate::expr::{exprs_view, Expr, ExprView, VariableExpr};
use crate::parser::lemma_errors_push;
use crate::resolution;
use crate::resolution::{ClassType, FunctionType, ResolverView, ScopeView};
use crate::stmt::{functions_view, stmts_view, ClassDeclaration, FunctionDeclaration, Stmt};
use crate::token::{tokens_view, Token};

verus! {

pub struct Resolver {
    pub had_resolve_error: bool,
    /// The stack of scopes, the innermost last.
    pub scopes: Vec<StringHashMap<bool>>,
    pub current_function: FunctionType,
    pub current_class: ClassType,
    /// The diagnostics, in the order in which they arose.
    pub errors: Vec<LoxErr>,
}

/// The scopes of a stack, each as a map.
pub open spec fn scopes_view(scopes: Seq<StringHashMap<bool>>) -> Seq<ScopeView> {
    Seq::new(scopes.len(), |i: int| scopes[i]@)
}

/// The value of what a resolving function returns.
pub open spec fn unit_result(r: Result<(), LoxErr>) -> Result<(), LoxErrView> {
    match r {
        Ok(_) => Ok(()),
        Err(e) => Err(e@),
    }
}

pub fn resolve_error(line: usize, message: &str) -> (e: LoxErr)
    ensures
        e@ == resolution::resolve_error(line, message@),
{
    LoxErr::Resolve { line, message: String::from_str(message) }
}

impl View for Resolver {
    type V = ResolverView;

    open spec fn view(&self) -> ResolverView {
        ResolverView {
            scopes: scopes_view(self.scopes@),
            current_function: self.current_function,
            current_class: self.current_class,
            errors: errors_view(self.errors@),
            had_resolve_error: self.had_resolve_error,
        }
    }
}

impl Resolver {
    /// A resolver at the top level: no scope, no function, no class, nothing
    /// reported.
    pub fn new() -> (r: Resolver)
        ensures
            r@ == (ResolverView {
                scopes: Seq::empty(),
                current_function: FunctionType::NoFunction,
                current_class: ClassType::NoClass,
                errors: Seq::empty(),
                had_resolve_error: false,
            }),
    {
        let r = Resolver {
            had_resolve_error: false,
            scopes: Vec::new(),
            current_function: FunctionType::NoFunction,
            current_class: ClassType::NoClass,
            errors: Vec::new(),
        };
        assert(scopes_view(r.scopes@) =~= Seq::empty());
        assert(errors_view(r.errors@) =~= Seq::empty());
        r
    }

    pub fn begin_scope(&mut self)
        ensures
            final(self)@ == resolution::begun(old(self)@),
    {
        self.scopes.push(StringHashMap::new());
        assert(scopes_view(self.scopes@) =~= scopes_view(old(self).scopes@).push(Map::empty()));
    }

    pub fn end_scope(&mut self)
        ensures
            final(self)@ == resolution::ended(old(self)@),
    {
        self.scopes.pop();
        assert(old(self).scopes@.len() > 0 ==> scopes_view(self.scopes@) =~= scopes_view(
            old(self).scopes@,
        ).drop_last());
        assert(old(self).scopes@.len() == 0 ==> scopes_view(self.scopes@) =~= scopes_view(
            old(self).scopes@,
        ));
    }

    /// Sets the flag of `name` in the innermost scope, if there is a scope.
    fn bind(&mut self, name: &str, flag: bool)
        ensures
            final(self)@ == resolution::bound(old(self)@, name@, flag),
    {
        let n = self.scopes.len();
        if n > 0 {
            self.scopes[n - 1].insert(String::from_str(name), flag);
            assert(scopes_view(self.scopes@) =~= scopes_view(old(self).scopes@).update(
                n - 1,
                scopes_view(old(self).scopes@).last().insert(name@, flag),
            ));
        }
    }

    /// Declares `name` in the innermost scope: the name is there, and not yet
    /// defined. A second declaration in one scope fails; among the globals
    /// every declaration is accepted.
    pub fn declare(&mut self, name: &Token) -> (r: Result<(), LoxErr>)
        ensures
            resolution::declarable(old(self)@, name.lexeme@) ==> r is Ok && final(self)@
                == resolution::bound(old(self)@, name.lexeme@, false),
            !resolution::declarable(old(self)@, name.lexeme@) ==> final(self)@ == old(self)@
                && unit_result(r) == Err::<(), LoxErrView>(resolution::already_declared(name@)),
    {
        let n = self.scopes.len();
        if n > 0 {
            if self.scopes[n - 1].contains_key(name.lexeme.as_str()) {
                return Err(
                    resolve_error(name.line, "Already a variable with this name in this scope."),
                );
            }
        }
        self.bind(name.lexeme.as_str(), false);
        Ok(())
    }

    /// Marks `name` as defined in the innermost scope.
    pub fn define(&mut self, name: &Token)
        ensures
            final(self)@ == resolution::bound(old(self)@, name.lexeme@, true),
    {
        self.bind(name.lexeme.as_str(), true);
    }

    /// The number of scopes between the innermost scope and the nearest one
    /// that declares `name`.
    pub fn distance_of(&self, name: &str) -> (r: Option<usize>)
        ensures
            match r {
                Some(d) => resolution::hops(self@.scopes, name@) == Some(d as nat),
                None => resolution::hops(self@.scopes, name@).is_none(),
            },
    {
        let n = self.scopes.len();
        let mut i: usize = n;
        let ghost all = scopes_view(self.scopes@);
        assert(all.subrange(0, n as int) =~= all);
        while i > 0
            invariant
                i <= n,
                n == self.scopes@.len(),
                all == scopes_view(self.scopes@),
                resolution::hops(all, name@) == match resolution::hops(
                    all.subrange(0, i as int),
                    name@,
                ) {
                    Some(x) => Some((x + (n - i)) as nat),
                    None => None,
                },
            decreases i,
        {
            let ghost upto = all.subrange(0, i as int);
            assert(upto.drop_last() =~= all.subrange(0, i - 1));
            assert(upto.last() == all[i - 1]);
            i = i - 1;
            if self.scopes[i].contains_key(name) {
                return Some(n - 1 - i);
            }
        }
        None
    }

    /// Gives a node its distance: the hops from the innermost scope to the
    /// one that declares `name`. A name that no scope declares is a global,
    /// and the node stays as it is.
    fn resolve_local(&self, name: &Token, distance: &mut Option<usize>)
        ensures
            *final(distance) == resolution::located(self@.scopes, name.lexeme@, *old(distance)),
    {
        match self.distance_of(name.lexeme.as_str()) {
            Some(d) => {
                *distance = Some(d);
            },
            None => {},
        }
    }

    pub fn visit_literal_expr(&self) -> (r: Result<(), LoxErr>)
        ensures
            r is Ok,
    {
        Ok(())
    }

    fn visit_variable_expr(&self, variable_expr: &mut VariableExpr) -> (r: Result<(), LoxErr>)
        ensures
            (final(variable_expr)@, unit_result(r)) == resolution::resolve_variable(
                old(variable_expr)@,
                self@,
            ),
    {
        let n = self.scopes.len();
        if n > 0 {
            match self.scopes[n - 1].get(variable_expr.name.lexeme.as_str()) {
                Some(flag) => {
                    if !*flag {
                        return Err(
                            resolve_error(
                                variable_expr.name.line,
                                "Can't read local variable in its own initializer.",
                            ),
                        );
                    }
                },
                None => {},
            }
        }
        self.resolve_local(&variable_expr.name, &mut variable_expr.distance);
        Ok(())
    }

    #[verifier::rlimit(40)]
    fn resolve_expr(&self, expr: &mut Expr) -> (r: Result<(), LoxErr>)
        ensures
            resolution::resolve_expr(old(expr)@, self@) == (resolution::ResolvedExpr {
                node: final(expr)@,
                result: unit_result(r),
            }),
        decreases *old(expr),
    {
        match expr {
            Expr::Assign(assign_expr) => {
                self.resolve_expr(&mut *assign_expr.value)?;
                self.resolve_local(&assign_expr.name, &mut assign_expr.distance);
                Ok(())
            },
            Expr::Binary(binary_expr) => {
                self.resolve_expr(&mut *binary_expr.left)?;
                self.resolve_expr(&mut *binary_expr.right)?;
                Ok(())
            },
            Expr::Call(call_expr) => {
                self.resolve_expr(&mut *call_expr.callee)?;
                self.resolve_exprs(&mut call_expr.arguments)
            },
            Expr::Get(get_expr) => {
                self.resolve_expr(&mut *get_expr.object)
            },
            Expr::Grouping(grouping_expr) => {
                self.resolve_expr(&mut *grouping_expr.expression)
            },
            Expr::Literal(_literal_expr) => self.visit_literal_expr(),
            Expr::Logical(logical_expr) => {
                self.resolve_expr(&mut *logical_expr.left)?;
                self.resolve_expr(&mut *logical_expr.right)?;
                Ok(())
            },
            Expr::SetField(set_expr) => {
                self.resolve_expr(&mut *set_expr.value)?;
                self.resolve_expr(&mut *set_expr.object)?;
                Ok(())
            },
            Expr::Super(super_expr) => {
                if self.current_class == ClassType::NoClass {
                    return Err(
                        resolve_error(
                            super_expr.keyword.line,
                            "Can't use 'super' outside of a class.",
                        ),
                    );
                } else if self.current_class != ClassType::SubClass {
                    return Err(
                        resolve_error(
                            super_expr.keyword.line,
                            "Can't use 'super' in a class with no superclass.",
                        ),
                    );
                }
                self.resolve_local(&super_expr.keyword, &mut super_expr.distance);
                Ok(())
            },
            Expr::This(this_expr) => {
                if self.current_class == ClassType::NoClass {
                    return Err(
                        resolve_error(this_expr.keyword.line, "Can't use 'this' outside of a class."),
                    );
                }
                self.resolve_local(&this_expr.keyword, &mut this_expr.distance);
                Ok(())
            },
            Expr::Unary(unary_expr) => {
                self.resolve_expr(&mut *unary_expr.right)
            },
            Expr::Variable(variable_expr) => self.visit_variable_expr(variable_expr),
        }
    }

    /// Resolves the expressions of a list from the first on, up to the first
    /// failure.
    fn resolve_exprs(&self, exprs: &mut Vec<Expr>) -> (r: Result<(), LoxErr>)
        ensures
            resolution::resolve_exprs(exprs_view(old(exprs)@), self@) == (resolution::ResolvedExprs {
                nodes: exprs_view(final(exprs)@),
                result: unit_result(r),
            }),
        decreases *old(exprs),
    {
        let ghost before = exprs@;
        let ghost views = exprs_view(before);
        let mut i: usize = 0;
        assert(views.subrange(0, 0) =~= Seq::<ExprView>::empty());
        assert(exprs_view(exprs@).subrange(0, 0) =~= Seq::<ExprView>::empty());
        while i < exprs.len()
            invariant
                i <= exprs@.len(),
                exprs@.len() == before.len(),
                before == old(exprs)@,
                views == exprs_view(before),
                forall|j: int| i <= j < before.len() ==> exprs@[j] == before[j],
                forall|j: int| 0 <= j < before.len() ==> decreases_to!(*old(exprs) => before[j]),
                resolution::resolve_exprs(views.subrange(0, i as int), self@) == (
                resolution::ResolvedExprs {
                    nodes: exprs_view(exprs@).subrange(0, i as int),
                    result: Ok(()),
                }),
            decreases exprs@.len() - i,
        {
            let ghost upto = views.subrange(0, i + 1);
            assert(upto.drop_last() =~= views.subrange(0, i as int));
            assert(upto.last() == before[i as int]@);
            let ghost earlier = exprs@;
            let r = self.resolve_expr(&mut exprs[i]);
            assert(exprs@.len() == earlier.len());
            assert(forall|j: int| 0 <= j < earlier.len() && j != i ==> exprs@[j] == earlier[j]);
            assert(exprs_view(exprs@).subrange(0, i + 1) =~= exprs_view(earlier).subrange(
                0,
                i as int,
            ).push(exprs@[i as int]@));
            if r.is_err() {
                proof {
                    lemma_rest_untouched(views, i as int + 1, self@, exprs_view(exprs@));
                }
                return r;
            }
            i = i + 1;
        }
        assert(views.subrange(0, i as int) =~= views);
        assert(exprs_view(exprs@).subrange(0, i as int) =~= exprs_view(exprs@));
        Ok(())
    }

    /// Resolves the statements of a program or of a body, one after the
    /// other. A failure is recorded in `errors`, and the next statement is
    /// resolved.
    pub fn resolve(&mut self, statements: &mut Vec<Stmt>)
        ensures
            resolution::resolve_stmts(stmts_view(old(statements)@), old(self)@) == (
            resolution::Resolved {
                node: stmts_view(final(statements)@),
                state: final(self)@,
                result: Ok(()),
            }),
            final(self).scopes@.len() == old(self).scopes@.len(),
            final(self).current_function == old(self).current_function,
            final(self).current_class == old(self).current_class,
        decreases *old(statements),
    {
        let ghost before = statements@;
        let ghost views = stmts_view(before);
        let ghost start = self@;
        let mut i: usize = 0;
        assert(views.subrange(0, 0) =~= Seq::empty());
        assert(stmts_view(statements@).subrange(0, 0) =~= Seq::empty());
        while i < statements.len()
            invariant
                i <= statements@.len(),
                statements@.len() == before.len(),
                before == old(statements)@,
                start == old(self)@,
                views == stmts_view(before),
                forall|j: int| i <= j < before.len() ==> statements@[j] == before[j],
                forall|j: int| 0 <= j < before.len() ==> decreases_to!(*old(statements) => before[j]),
                resolution::resolve_stmts(views.subrange(0, i as int), start) == (
                resolution::Resolved {
                    node: stmts_view(statements@).subrange(0, i as int),
                    state: self@,
                    result: Ok(()),
                }),
            decreases statements@.len() - i,
        {
            let ghost upto = views.subrange(0, i + 1);
            assert(upto.drop_last() =~= views.subrange(0, i as int));
            assert(upto.last() == before[i as int]@);
            let ghost earlier = statements@;
            let r = self.resolve_stmt(&mut statements[i]);
            assert(statements@.len() == earlier.len());
            assert(forall|j: int| 0 <= j < earlier.len() && j != i ==> statements@[j] == earlier[j]);
            assert(stmts_view(statements@).subrange(0, i + 1) =~= stmts_view(earlier).subrange(
                0,
                i as int,
            ).push(statements@[i as int]@));
            match r {
                Ok(_) => {},
                Err(lox_err) => {
                    proof {
                        lemma_errors_push(self.errors@, lox_err);
                    }
                    self.errors.push(lox_err);
                    self.had_resolve_error = true;
                },
            }
            i = i + 1;
        }
        assert(views.subrange(0, i as int) =~= views);
        assert(stmts_view(statements@).subrange(0, i as int) =~= stmts_view(statements@));
        proof {
            resolution::law_resolution_keeps_context(views, start);
        }
    }

    fn resolve_stmt(&mut self, stmt: &mut Stmt) -> (r: Result<(), LoxErr>)
        ensures
            resolution::resolve_stmt(old(stmt)@, old(self)@) == (resolution::Resolved {
                node: final(stmt)@,
                state: final(self)@,
                result: unit_result(r),
            }),
        decreases *old(stmt), 1nat,
    {
        match stmt {
            Stmt::Block { .. } => self.visit_block_stmt(stmt),
            Stmt::ClassDeclaration { .. } => self.visit_class_stmt(stmt),
            Stmt::Expression { .. } => self.visit_expression_stmt(stmt),
            Stmt::FunctionDeclaration { .. } => self.visit_function_declaration_stmt(stmt),
            Stmt::If { .. } => self.visit_if_stmt(stmt),
            Stmt::While { .. } => self.visit_while_stmt(stmt),
            Stmt::Print { .. } => self.visit_print_stmt(stmt),
            Stmt::Return { .. } => self.visit_return(stmt),
            Stmt::Var { .. } => self.visit_var_stmt(stmt),
        }
    }

    fn visit_class_stmt(&mut self, stmt: &mut Stmt) -> (r: Result<(), LoxErr>)
        requires
            *old(stmt) is ClassDeclaration,
        ensures
            resolution::resolve_stmt(old(stmt)@, old(self)@) == (resolution::Resolved {
                node: final(stmt)@,
                state: final(self)@,
                result: unit_result(r),
            }),
        decreases *old(stmt), 0nat,
    {
        match stmt {
            Stmt::ClassDeclaration { class_declaration } => self.visit_class_declaration_stmt(
                class_declaration,
            ),
            _ => Ok(()),
        }
    }

    fn visit_expression_stmt(&mut self, stmt: &mut Stmt) -> (r: Result<(), LoxErr>)
        requires
            *old(stmt) is Expression,
        ensures
            resolution::resolve_stmt(old(stmt)@, old(self)@) == (resolution::Resolved {
                node: final(stmt)@,
                state: final(self)@,
                result: unit_result(r),
            }),
    {
        match stmt {
            Stmt::Expression { expression } => self.resolve_expr(expression),
            _ => Ok(()),
        }
    }

    fn visit_print_stmt(&mut self, stmt: &mut Stmt) -> (r: Result<(), LoxErr>)
        requires
            *old(stmt) is Print,
        ensures
            resolution::resolve_stmt(old(stmt)@, old(self)@) == (resolution::Resolved {
                node: final(stmt)@,
                state: final(self)@,
                result: unit_result(r),
            }),
    {
        match stmt {
            Stmt::Print { expression } => self.resolve_expr(expression),
            _ => Ok(()),
        }
    }

    fn visit_return(&mut self, stmt: &mut Stmt) -> (r: Result<(), LoxErr>)
        requires
            *old(stmt) is Return,
        ensures
            resolution::resolve_stmt(old(stmt)@, old(self)@) == (resolution::Resolved {
                node: final(stmt)@,
                state: final(self)@,
                result: unit_result(r),
            }),
    {
        match stmt {
            Stmt::Return { keyword, value } => self.visit_return_stmt(keyword, value),
            _ => Ok(()),
        }
    }

    fn visit_block_stmt(&mut self, stmt: &mut Stmt) -> (r: Result<(), LoxErr>)
        requires
            *old(stmt) is Block,
        ensures
            resolution::resolve_stmt(old(stmt)@, old(self)@) == (resolution::Resolved {
                node: final(stmt)@,
                state: final(self)@,
                result: unit_result(r),
            }),
        decreases *old(stmt), 0nat,
    {
        match stmt {
            Stmt::Block { statements } => {
                self.begin_scope();
                self.resolve(statements);
                self.end_scope();
                Ok(())
            },
            _ => Ok(()),
        }
    }

    fn visit_function_declaration_stmt(&mut self, stmt: &mut Stmt) -> (r: Result<(), LoxErr>)
        requires
            *old(stmt) is FunctionDeclaration,
        ensures
            resolution::resolve_stmt(old(stmt)@, old(self)@) == (resolution::Resolved {
                node: final(stmt)@,
                state: final(self)@,
                result: unit_result(r),
            }),
        decreases *old(stmt), 0nat,
    {
        match stmt {
            Stmt::FunctionDeclaration { function_declaration } => {
                let ghost whole = function_declaration@;
                match self.declare(&function_declaration.name) {
                    Ok(_) => {},
                    Err(e) => {
                        assert(!resolution::declarable(old(self)@, whole.name.lexeme));
                        assert(function_declaration@ == whole);
                        return Err(e);
                    },
                }
                self.define(&function_declaration.name);
                self.resolve_function(function_declaration, FunctionType::Function)
            },
            _ => Ok(()),
        }
    }

    fn visit_if_stmt(&mut self, stmt: &mut Stmt) -> (r: Result<(), LoxErr>)
        requires
            *old(stmt) is If,
        ensures
            resolution::resolve_stmt(old(stmt)@, old(self)@) == (resolution::Resolved {
                node: final(stmt)@,
                state: final(self)@,
                result: unit_result(r),
            }),
        decreases *old(stmt), 0nat,
    {
        match stmt {
            Stmt::If { condition, then_branch, else_branch } => {
                match self.resolve_expr(condition) {
                    Ok(_) => {},
                    Err(e) => {
                        return Err(e);
                    },
                }
                match self.resolve_stmt(&mut **then_branch) {
                    Ok(_) => {},
                    Err(e) => {
                        return Err(e);
                    },
                }
                match else_branch {
                    Some(exist_else_branch) => self.resolve_stmt(&mut **exist_else_branch),
                    None => Ok(()),
                }
            },
            _ => Ok(()),
        }
    }

    fn visit_while_stmt(&mut self, stmt: &mut Stmt) -> (r: Result<(), LoxErr>)
        requires
            *old(stmt) is While,
        ensures
            resolution::resolve_stmt(old(stmt)@, old(self)@) == (resolution::Resolved {
                node: final(stmt)@,
                state: final(self)@,
                result: unit_result(r),
            }),
        decreases *old(stmt), 0nat,
    {
        match stmt {
            Stmt::While { condition, body } => {
                match self.resolve_expr(condition) {
                    Ok(_) => {},
                    Err(e) => {
                        return Err(e);
                    },
                }
                self.resolve_stmt(&mut **body)
            },
            _ => Ok(()),
        }
    }

    fn visit_var_stmt(&mut self, stmt: &mut Stmt) -> (r: Result<(), LoxErr>)
        requires
            *old(stmt) is Var,
        ensures
            resolution::resolve_stmt(old(stmt)@, old(self)@) == (resolution::Resolved {
                node: final(stmt)@,
                state: final(self)@,
                result: unit_result(r),
            }),
    {
        match stmt {
            Stmt::Var { name, initializer } => {
                match self.declare(name) {
                    Ok(_) => {},
                    Err(e) => {
                        return Err(e);
                    },
                }
                let resolved = match initializer {
                    Some(expr) => self.resolve_expr(expr),
                    None => Ok(()),
                };
                self.define(name);
                resolved
            },
            _ => Ok(()),
        }
    }

    fn visit_return_stmt(&self, keyword: &Token, value: &mut Option<Expr>) -> (r: Result<
        (),
        LoxErr,
    >)
        ensures
            resolution::resolve_stmt(
                crate::stmt::StmtView::Return {
                    keyword: keyword@,
                    value: crate::stmt::optional_expr_view(*old(value)),
                },
                self@,
            ) == (resolution::Resolved {
                node: crate::stmt::StmtView::Return {
                    keyword: keyword@,
                    value: crate::stmt::optional_expr_view(*final(value)),
                },
                state: self@,
                result: unit_result(r),
            }),
    {
        if self.current_function == FunctionType::NoFunction {
            return Err(resolve_error(keyword.line, "Can't return from top-level code."));
        }
        match value {
            Some(exist_ret_value) => {
                if self.current_function == FunctionType::Initializer {
                    return Err(
                        resolve_error(keyword.line, "Can't return a value from an initializer."),
                    );
                }
                self.resolve_expr(exist_ret_value)
            },
            None => Ok(()),
        }
    }

    /// Declares and defines the parameters of a function, up to the first
    /// that is declared twice.
    fn declare_params(&mut self, params: &Vec<Token>) -> (r: Result<(), LoxErr>)
        ensures
            resolution::declare_all(tokens_view(params@), old(self)@) == (resolution::Resolved {
                node: (),
                state: final(self)@,
                result: unit_result(r),
            }),
    {
        let ghost start = self@;
        let ghost views = tokens_view(params@);
        let mut i: usize = 0;
        assert(views.subrange(0, 0) =~= Seq::empty());
        while i < params.len()
            invariant
                i <= params@.len(),
                start == old(self)@,
                views == tokens_view(params@),
                resolution::declare_all(views.subrange(0, i as int), start) == (
                resolution::Resolved { node: (), state: self@, result: Ok(()) }),
            decreases params@.len() - i,
        {
            let ghost upto = views.subrange(0, i + 1);
            assert(upto.drop_last() =~= views.subrange(0, i as int));
            assert(upto.last() == params@[i as int]@);
            match self.declare(&params[i]) {
                Ok(_) => {},
                Err(e) => {
                    proof {
                        lemma_declare_all_failed(views, i as int + 1, start);
                    }
                    return Err(e);
                },
            }
            self.define(&params[i]);
            i = i + 1;
        }
        assert(views.subrange(0, i as int) =~= views);
        Ok(())
    }

    /// Resolves a function of the kind `function_type`: the parameters and
    /// the body in a scope of their own.
    fn resolve_function(
        &mut self,
        function_declaration: &mut FunctionDeclaration,
        function_type: FunctionType,
    ) -> (r: Result<(), LoxErr>)
        ensures
            resolution::resolve_function(old(function_declaration)@, old(self)@, function_type) == (
            resolution::Resolved {
                node: final(function_declaration)@,
                state: final(self)@,
                result: unit_result(r),
            }),
        decreases *old(function_declaration), 0nat,
    {
        let enclosing_function = self.current_function;
        self.current_function = function_type;
        self.begin_scope();
        let declared = self.declare_params(&function_declaration.params);
        if declared.is_ok() {
            self.resolve(&mut function_declaration.body);
        }
        self.end_scope();
        self.current_function = enclosing_function;
        declared
    }

    /// Resolves the methods of a class from the first on, up to the first
    /// failure.
    fn resolve_methods(&mut self, methods: &mut Vec<FunctionDeclaration>) -> (r: Result<(), LoxErr>)
        ensures
            resolution::resolve_methods(functions_view(old(methods)@), old(self)@) == (
            resolution::Resolved {
                node: functions_view(final(methods)@),
                state: final(self)@,
                result: unit_result(r),
            }),
        decreases *old(methods), 0nat,
    {
        let ghost start = self@;
        let ghost before = methods@;
        let ghost views = functions_view(before);
        let mut i: usize = 0;
        assert(views.subrange(0, 0) =~= Seq::empty());
        assert(functions_view(methods@).subrange(0, 0) =~= Seq::empty());
        while i < methods.len()
            invariant
                i <= methods@.len(),
                methods@.len() == before.len(),
                start == old(self)@,
                before == old(methods)@,
                views == functions_view(before),
                forall|j: int| i <= j < before.len() ==> methods@[j] == before[j],
                forall|j: int| 0 <= j < before.len() ==> decreases_to!(*old(methods) => before[j]),
                resolution::resolve_methods(views.subrange(0, i as int), start) == (
                resolution::Resolved {
                    node: functions_view(methods@).subrange(0, i as int),
                    state: self@,
                    result: Ok(()),
                }),
            decreases methods@.len() - i,
        {
            let ghost upto = views.subrange(0, i + 1);
            assert(upto.drop_last() =~= views.subrange(0, i as int));
            assert(upto.last() == before[i as int]@);
            let is_init = methods[i].name.lexeme == String::from_str("init");
            let function_type = if is_init {
                FunctionType::Initializer
            } else {
                FunctionType::Method
            };
            let ghost earlier = methods@;
            let r = self.resolve_function(&mut methods[i], function_type);
            assert(methods@.len() == earlier.len());
            assert(forall|j: int| 0 <= j < earlier.len() && j != i ==> methods@[j] == earlier[j]);
            assert(functions_view(methods@).subrange(0, i + 1) =~= functions_view(earlier).subrange(
                0,
                i as int,
            ).push(methods@[i as int]@));
            if r.is_err() {
                proof {
                    lemma_methods_untouched(views, i as int + 1, start, functions_view(methods@));
                }
                return r;
            }
            i = i + 1;
        }
        assert(views.subrange(0, i as int) =~= views);
        assert(functions_view(methods@).subrange(0, i as int) =~= functions_view(methods@));
        Ok(())
    }

    /// Resolves a class declaration: the name, the superclass if there is
    /// one, and the methods inside the scopes of `super` and `this`.
    fn visit_class_declaration_stmt(&mut self, class_declaration: &mut ClassDeclaration) -> (r:
        Result<(), LoxErr>)
        ensures
            resolution::resolve_class(class_view(*old(class_declaration)), old(self)@) == (
            resolution::Resolved {
                node: class_view(*final(class_declaration)),
                state: final(self)@,
                result: unit_result(r),
            }),
        decreases *old(class_declaration), 0nat,
    {
        let enclosing_class = self.current_class;
        self.current_class = ClassType::Class;
        match self.declare(&class_declaration.name) {
            Ok(_) => {},
            Err(e) => {
                self.current_class = enclosing_class;
                return Err(e);
            },
        }
        self.define(&class_declaration.name);
        let has_superclass = class_declaration.superclass.is_some();
        match &mut class_declaration.superclass {
            Some(exist_superclass) => {
                if class_declaration.name.lexeme == exist_superclass.name.lexeme {
                    self.current_class = enclosing_class;
                    return Err(
                        resolve_error(
                            exist_superclass.name.line,
                            "A class can't inherit from itself.",
                        ),
                    );
                }
                self.current_class = ClassType::SubClass;
                match self.visit_variable_expr(exist_superclass) {
                    Ok(_) => {},
                    Err(e) => {
                        self.current_class = enclosing_class;
                        return Err(e);
                    },
                }
                self.begin_scope();
                self.bind("super", true);
            },
            None => {},
        }
        self.begin_scope();
        self.bind("this", true);
        let resolved = self.resolve_methods(&mut class_declaration.methods);
        self.end_scope();
        if has_superclass {
            self.end_scope();
        }
        self.current_class = enclosing_class;
        resolved
    }
}

/// Once an expression of a sequence has failed, those behind it stay as they
/// are and the failure is that of the whole.
pub proof fn lemma_rest_untouched(
    views: Seq<ExprView>,
    n: int,
    st: ResolverView,
    after: Seq<ExprView>,
)
    requires
        0 <= n <= views.len(),
        after.len() == views.len(),
        resolution::resolve_exprs(views.subrange(0, n), st).nodes == after.subrange(0, n),
        resolution::resolve_exprs(views.subrange(0, n), st).result is Err,
        forall|j: int| n <= j < views.len() ==> after[j] == views[j],
    ensures
        resolution::resolve_exprs(views, st).nodes == after,
        resolution::resolve_exprs(views, st).result == resolution::resolve_exprs(
            views.subrange(0, n),
            st,
        ).result,
    decreases views.len() - n,
{
    if n == views.len() {
        assert(views.subrange(0, n) =~= views);
        assert(after.subrange(0, n) =~= after);
    } else {
        let upto = views.subrange(0, n + 1);
        assert(upto.drop_last() =~= views.subrange(0, n));
        assert(upto.last() == views[n]);
        assert(after.subrange(0, n + 1) =~= after.subrange(0, n).push(after[n]));
        lemma_rest_untouched(views, n + 1, st, after);
    }
}

/// The value of a class declaration.
pub open spec fn class_view(c: ClassDeclaration) -> crate::stmt::ClassView {
    crate::stmt::ClassView {
        name: c.name@,
        superclass: match c.superclass {
            Some(v) => Some(v@),
            None => None,
        },
        methods: functions_view(c.methods@),
    }
}

/// Once a parameter could not be declared, the declaration of all of them
/// has failed in the same way and in the same state.
pub proof fn lemma_declare_all_failed(params: Seq<crate::token::TokenView>, n: int, st: ResolverView)
    requires
        0 <= n <= params.len(),
        resolution::declare_all(params.subrange(0, n), st).result is Err,
    ensures
        resolution::declare_all(params, st) == resolution::declare_all(params.subrange(0, n), st),
    decreases params.len() - n,
{
    if n == params.len() {
        assert(params.subrange(0, n) =~= params);
    } else {
        let upto = params.subrange(0, n + 1);
        assert(upto.drop_last() =~= params.subrange(0, n));
        lemma_declare_all_failed(params, n + 1, st);
    }
}

/// Once a method of a class has failed, those behind it stay as they are and
/// the failure is that of the whole.
pub proof fn lemma_methods_untouched(
    views: Seq<crate::stmt::FunctionView>,
    n: int,
    st: ResolverView,
    after: Seq<crate::stmt::FunctionView>,
)
    requires
        0 <= n <= views.len(),
        after.len() == views.len(),
        resolution::resolve_methods(views.subrange(0, n), st).node == after.subrange(0, n),
        resolution::resolve_methods(views.subrange(0, n), st).result is Err,
        forall|j: int| n <= j < views.len() ==> after[j] == views[j],
    ensures
        resolution::resolve_methods(views, st).node == after,
        resolution::resolve_methods(views, st).result == resolution::resolve_methods(
            views.subrange(0, n),
            st,
        ).result,
        resolution::resolve_methods(views, st).state == resolution::resolve_methods(
            views.subrange(0, n),
            st,
        ).state,
    decreases views.len() - n,
{
    if n == views.len() {
        assert(views.subrange(0, n) =~= views);
        assert(after.subrange(0, n) =~= after);
    } else {
        let upto = views.subrange(0, n + 1);
        assert(upto.drop_last() =~= views.subrange(0, n));
        assert(upto.last() == views[n]);
        assert(after.subrange(0, n + 1) =~= after.subrange(0, n).push(after[n]));
        lemma_methods_untouched(views, n + 1, st, after);
    }
}

} // verus!
