//! The interpreter, as a machine that its host steps.
//!
//! The machine holds what is being evaluated or executed (the control), the
//! work that waits for it (the frames), and the store: scopes, functions,
//! classes and instances, each known by its index. One call of
//! [`Interpreter::step`] does one small piece of work and says what the host
//! is to do before the next call: nothing, print a line, or supply what only
//! floating-point arithmetic or the clock can give.
use vstd::prelude::*;
use vstd::hash_map::StringHashMap;
use vstd::string::StringExecFns;
use crate::environment::{
    ancestor_of, binding_scope, grown, lookup, lookup_at, rebound, undefined_variable,
    undefined_variable_error, Environment,
};
use crate::err::{LoxErr, LoxErrView};
use crate::expr::{
    AssignExpr, BinaryExpr, CallExpr, Expr, GetExpr, LogicalExpr, SetExpr, SuperExpr, UnaryExpr,
};
use crate::lox_class::{
    classes_ok, lemma_method_is_a_function, method_of, methods_ok, LoxClass,
};
use crate::lox_function::LoxFunction;
use crate::lox_instance::{undefined_property, undefined_property_error, LoxInstance, Property};
use crate::object::{truthy, NativeFunction, Object, ObjectView};
use crate::operation::{
    apply_binary, apply_unary, binary, decided_by_left, left_decides, unary, Computed,
    ComputedView,
};
use crate::resolvable::Resolvable;
use crate::stmt::{ClassDeclaration, FunctionDeclaration, Stmt};
use crate::text::{decimal_text, push_decimal};
use crate::token::Token;
use crate::token_type::TokenType;

verus! {

/// Work that the host has been asked for and has not yet supplied.
#[derive(Debug, Clone, Copy)]
pub enum Pending {
    /// `left operator right` on numbers.
    Arithmetic { operator: TokenType, left: u64, right: u64 },
    /// The time of the clock.
    Clock,
    /// The spelling of a number that is to be printed.
    PrintNumber(u64),
    /// The spelling of a number that was divided by zero, for the message of
    /// the failure, which arose on the line `line`.
    DivisionText { left: u64, line: usize },
}

/// What the machine is about to do.
pub enum Control<'a> {
    /// Nothing: no program is loaded, or it has ended.
    Idle,
    /// Evaluate an expression.
    Evaluate(&'a Expr),
    /// Execute a statement.
    Execute(&'a Stmt),
    /// Hand a value to the frame that waits for it.
    Value(Object),
    /// Go on behind a statement that is done.
    Completed,
    /// Unwind to the call that a `return` ends, with the value it returns.
    Returning(Object),
    /// Wait for the host.
    Awaiting(Pending),
}

impl<'a> Clone for Control<'a> {
    fn clone(&self) -> (r: Self)
        ensures
            r == *self,
    {
        match self {
            Control::Idle => Control::Idle,
            Control::Evaluate(e) => Control::Evaluate(*e),
            Control::Execute(s) => Control::Execute(*s),
            Control::Value(v) => Control::Value(v.clone()),
            Control::Completed => Control::Completed,
            Control::Returning(v) => Control::Returning(v.clone()),
            Control::Awaiting(p) => Control::Awaiting(*p),
        }
    }
}

/// Work that waits until the control has given a value or a statement is done.
#[allow(inconsistent_fields)]
pub enum Frame<'a> {
    /// The statements of the program; `next` is the first not yet begun.
    Program { statements: &'a Vec<Stmt>, next: usize },
    /// The statements of a block or of a function body, run in a scope of
    /// their own; `previous` is the scope to go back to.
    Block { statements: &'a Vec<Stmt>, next: usize, previous: usize },
    /// A `while`: after the condition the body, after the body the condition.
    While { condition: &'a Expr, body: &'a Stmt },
    /// A call of the function `function`, which a `return` inside it ends.
    Call { function: usize },
    /// The making of the instance `instance`, whose initializer runs.
    Construct { instance: usize },
    /// An expression statement: the value is dropped.
    Discard,
    /// A print statement: the value is printed.
    Print,
    /// A variable declaration: the value is bound to `name`.
    Define { name: &'a Token },
    /// An `if`: the value decides which branch runs.
    Branch { then_branch: &'a Stmt, else_branch: Option<&'a Stmt> },
    /// A `return`: the value is returned.
    ReturnValue,
    Assign { expr: &'a AssignExpr },
    Unary { expr: &'a UnaryExpr },
    BinaryLeft { expr: &'a BinaryExpr },
    BinaryRight { expr: &'a BinaryExpr, left: Object },
    Logical { expr: &'a LogicalExpr },
    Callee { expr: &'a CallExpr },
    /// The arguments of a call, those in `arguments` evaluated already.
    Argument { expr: &'a CallExpr, callee: Object, arguments: Vec<Object> },
    GetObject { expr: &'a GetExpr },
    SetObject { expr: &'a SetExpr },
    SetValue { expr: &'a SetExpr, instance: usize },
}

/// What the host is to do before it steps the machine again.
#[derive(Debug)]
pub enum Action {
    /// Nothing: step again with [`Event::Resume`].
    Continue,
    /// Print the line, then step again with [`Event::Resume`].
    Print(String),
    /// Compute `left operator right` on the numbers with these bit patterns,
    /// where the operator is `+`, `-`, `*` or `/`, and step again with
    /// [`Event::Number`] of the result's bit pattern.
    Arithmetic { operator: TokenType, left: u64, right: u64 },
    /// Spell the number with this bit pattern and step again with
    /// [`Event::Text`].
    FormatNumber(u64),
    /// Read the clock, in seconds since the epoch, and step again with
    /// [`Event::Number`].
    ReadClock,
    /// The program has ended.
    Finished,
    /// The program has failed.
    Failed(LoxErr),
}

/// The mathematical value of an [`Action`].
pub enum ActionView {
    Continue,
    Print(Seq<char>),
    Arithmetic { operator: TokenType, left: u64, right: u64 },
    FormatNumber(u64),
    ReadClock,
    Finished,
    Failed(LoxErrView),
}

impl View for Action {
    type V = ActionView;

    open spec fn view(&self) -> ActionView {
        match self {
            Action::Continue => ActionView::Continue,
            Action::Print(s) => ActionView::Print(s@),
            Action::Arithmetic { operator, left, right } => ActionView::Arithmetic {
                operator: *operator,
                left: *left,
                right: *right,
            },
            Action::FormatNumber(n) => ActionView::FormatNumber(*n),
            Action::ReadClock => ActionView::ReadClock,
            Action::Finished => ActionView::Finished,
            Action::Failed(e) => ActionView::Failed(e@),
        }
    }
}

/// What the host hands to the machine with a step.
#[derive(Debug)]
pub enum Event {
    /// Nothing was asked for.
    Resume,
    /// The bit pattern of the number that was asked for.
    Number(u64),
    /// The spelling that was asked for.
    Text(String),
}

pub struct Interpreter<'a> {
    pub had_runtime_error: bool,
    /// The current scope.
    pub environment: usize,
    /// The scope of the globals.
    pub globals: usize,
    pub scopes: Environment,
    pub functions: Vec<LoxFunction<'a>>,
    pub classes: Vec<LoxClass>,
    pub instances: Vec<LoxInstance>,
    pub control: Control<'a>,
    /// The waiting work, the innermost last.
    pub frames: Vec<Frame<'a>>,
}

/// What the host is asked for while `pending` is awaited.
pub open spec fn request(pending: Pending) -> ActionView {
    match pending {
        Pending::Arithmetic { operator, left, right } => ActionView::Arithmetic {
            operator,
            left,
            right,
        },
        Pending::Clock => ActionView::ReadClock,
        Pending::PrintNumber(n) => ActionView::FormatNumber(n),
        Pending::DivisionText { left, line } => ActionView::FormatNumber(left),
    }
}

/// Does the frame fit a store with that many scopes, functions and instances?
pub open spec fn frame_ok(frame: Frame, scopes: nat, functions: nat, instances: nat) -> bool {
    match frame {
        Frame::Program { statements, next } => next <= statements@.len(),
        Frame::Block { statements, next, previous } => next <= statements@.len() && previous
            < scopes,
        Frame::Call { function } => function < functions,
        Frame::Construct { instance } => instance < instances,
        Frame::SetValue { expr, instance } => instance < instances,
        Frame::Argument { expr, callee, arguments } => arguments@.len() < expr.arguments@.len(),
        _ => true,
    }
}

/// A runtime failure on the line `line`.
pub open spec fn runtime_error(line: usize, message: Seq<char>) -> LoxErrView {
    LoxErrView::Runtime { line, message }
}

pub fn runtime(line: usize, message: &str) -> (e: LoxErr)
    ensures
        e@ == runtime_error(line, message@),
{
    LoxErr::Runtime { line, message: String::from_str(message) }
}

impl NativeFunction {
    /// Begins the call of the native function `clock`: the host is asked for
    /// the time.
    pub fn call<'a>(&self, interpreter: &mut Interpreter<'a>) -> (r: Action)
        requires
            old(interpreter).wf(),
            self.name@ == "clock"@,
        ensures
            final(interpreter).wf(),
            final(interpreter).went(
                old(interpreter),
                Control::Awaiting(Pending::Clock),
                old(interpreter).frames@,
            ),
            r@ == ActionView::ReadClock,
    {
        interpreter.control = Control::Awaiting(Pending::Clock);
        Action::ReadClock
    }
}

impl<'a> Interpreter<'a> {
    /// The store is consistent: scopes and classes are chained to older ones,
    /// the methods of the classes are functions of the store, and every
    /// handle that the machine itself holds is one of the store.
    pub open spec fn wf(&self) -> bool {
        &&& self.scopes.wf()
        &&& self.environment < self.scopes.scopes@.len()
        &&& self.globals < self.scopes.scopes@.len()
        &&& forall|f: int|
            0 <= f < self.functions@.len() ==> (#[trigger] self.functions@[f]).closure
                < self.scopes.scopes@.len()
        &&& classes_ok(self.classes@)
        &&& methods_ok(self.classes@, self.functions@.len())
        &&& forall|i: int|
            0 <= i < self.instances@.len() ==> (#[trigger] self.instances@[i]).class
                < self.classes@.len()
        &&& forall|k: int|
            0 <= k < self.frames@.len() ==> frame_ok(
                #[trigger] self.frames@[k],
                self.scopes.scopes@.len(),
                self.functions@.len(),
                self.instances@.len(),
            )
    }

    /// The store of `self` is that of `before`.
    pub open spec fn same_store(&self, before: &Interpreter<'a>) -> bool {
        &&& self.scopes.scopes@ == before.scopes.scopes@
        &&& self.functions@ == before.functions@
        &&& self.classes@ == before.classes@
        &&& self.instances@ == before.instances@
        &&& self.globals == before.globals
        &&& self.had_runtime_error == before.had_runtime_error
    }

    /// Nothing of the machine has changed: the store, the current scope, the
    /// control and the frames are those of `before`. So it is after a part of
    /// a step has failed.
    pub open spec fn untouched(&self, before: &Interpreter<'a>) -> bool {
        &&& self.same_store(before)
        &&& self.environment == before.environment
        &&& self.control == before.control
        &&& self.frames@ == before.frames@
    }

    /// Nothing of the machine has changed but that the frame on top is taken
    /// off. So it is after the frame that took a value has failed on it.
    pub open spec fn popped(&self, before: &Interpreter<'a>) -> bool {
        &&& self.same_store(before)
        &&& self.environment == before.environment
        &&& self.control == before.control
        &&& before.frames@.len() > 0
        &&& self.frames@ == before.frames@.drop_last()
    }

    /// The machine has gone from `before` to `self` by a step that left the
    /// store and the current scope alone.
    pub open spec fn went(
        &self,
        before: &Interpreter<'a>,
        control: Control<'a>,
        frames: Seq<Frame<'a>>,
    ) -> bool {
        &&& self.same_store(before)
        &&& self.environment == before.environment
        &&& self.control == control
        &&& self.frames@ == frames
    }

    /// An interpreter with nothing loaded, whose globals hold the native
    /// function `clock`.
    pub fn new() -> (r: Interpreter<'a>)
        ensures
            r.wf(),
            r.control is Idle,
            r.frames@.len() == 0,
            !r.had_runtime_error,
            r.environment == 0,
            r.globals == 0,
            r.scopes.scopes@.len() == 1,
            r.scopes.scopes@[0].values@.dom() == set!["clock"@],
            r.scopes.scopes@[0].values@["clock"@]@ == ObjectView::NativeFunction("clock"@),
            r.functions@.len() == 0,
            r.classes@.len() == 0,
            r.instances@.len() == 0,
    {
        let mut scopes = Environment::new();
        scopes.define(
            0,
            "clock",
            Object::NativeFunction(NativeFunction { name: String::from_str("clock") }),
        );
        assert(scopes.scopes@[0].values@.dom() =~= set!["clock"@]);
        Interpreter {
            had_runtime_error: false,
            environment: 0,
            globals: 0,
            scopes,
            functions: Vec::new(),
            classes: Vec::new(),
            instances: Vec::new(),
            control: Control::Idle,
            frames: Vec::new(),
        }
    }

    /// Is a value true in a condition?
    pub fn is_truthy(literal: &Object) -> (r: bool)
        ensures
            r == truthy(literal@),
    {
        literal.is_truthy()
    }

    /// The failure of a unary `-` on what is no number.
    pub fn number_err(line: usize) -> (r: Result<Object, LoxErr>)
        ensures
            r is Err,
            r->Err_0@ == runtime_error(line, crate::operation::not_a_number()),
    {
        Err(runtime(line, "Operand must be a number."))
    }

    /// What a name stands for: with a distance, the binding of the scope that
    /// many steps out from the current one; without, that of the globals.
    pub open spec fn looked_up(&self, name: Seq<char>, distance: Option<usize>) -> Option<Object> {
        match distance {
            Some(d) => lookup_at(self.scopes.scopes@, self.environment as int, d as nat, name),
            None => lookup(self.scopes.scopes@, self.globals as int, name),
        }
    }

    /// Reads what a node stands for that names a binding: with the distance
    /// that the resolver recorded, or among the globals.
    pub fn look_up_variable<R: Resolvable>(&self, val: &R) -> (r: Result<Object, LoxErr>)
        requires
            self.wf(),
        ensures
            match self.looked_up(val.resolved_name().lexeme@, val.resolved_distance()) {
                Some(v) => r == Ok::<Object, LoxErr>(v),
                None => r is Err && r->Err_0@ == runtime_error(
                    val.resolved_name().line,
                    crate::environment::undefined_variable(val.resolved_name().lexeme@),
                ),
            },
    {
        let name = val.name();
        match val.get_distance() {
            Some(d) => {
                if self.scopes.contains_at(self.environment, d, name.lexeme.as_str()) {
                    Ok(self.scopes.get_at(self.environment, d, name.lexeme.as_str()))
                } else {
                    Err(crate::environment::undefined_variable_error(name))
                }
            },
            None => self.scopes.get(self.globals, name),
        }
    }

    /// Pushes a frame.
    fn push(&mut self, frame: Frame<'a>)
        requires
            old(self).wf(),
            frame_ok(
                frame,
                old(self).scopes.scopes@.len(),
                old(self).functions@.len(),
                old(self).instances@.len(),
            ),
        ensures
            final(self).wf(),
            final(self).same_store(old(self)),
            final(self).environment == old(self).environment,
            final(self).control == old(self).control,
            final(self).frames@ == old(self).frames@.push(frame),
    {
        self.frames.push(frame);
    }

    /// What evaluating `expr` fails with, if it fails.
    pub open spec fn evaluate_error(&self, expr: &Expr) -> Option<LoxErrView> {
        match expr {
            Expr::Variable(v) => match self.looked_up(v.name.lexeme@, v.distance) {
                Some(_) => None,
                None => Some(
                    runtime_error(
                        v.name.line,
                        crate::environment::undefined_variable(v.name.lexeme@),
                    ),
                ),
            },
            Expr::This(t) => match self.looked_up(t.keyword.lexeme@, t.distance) {
                Some(_) => None,
                None => Some(
                    runtime_error(
                        t.keyword.line,
                        crate::environment::undefined_variable(t.keyword.lexeme@),
                    ),
                ),
            },
            Expr::Super(s) => self.super_error(s),
            _ => None,
        }
    }

    /// The first step of evaluating `expr`: a literal, a variable, `this` and
    /// `super` give their value at once; a grouping gives way to what it
    /// holds; every other expression leaves a frame and turns to its first
    /// operand.
    pub open spec fn evaluate_done(&self, before: &Interpreter<'a>, expr: &'a Expr) -> bool {
        match expr {
            Expr::Literal(l) => self.went(before, Control::Value(l.literal), before.frames@),
            Expr::Grouping(g) => self.went(before, Control::Evaluate(&*g.expression), before.frames@),
            Expr::Variable(v) => self.went(
                before,
                Control::Value(before.looked_up(v.name.lexeme@, v.distance).unwrap()),
                before.frames@,
            ),
            Expr::This(t) => self.went(
                before,
                Control::Value(before.looked_up(t.keyword.lexeme@, t.distance).unwrap()),
                before.frames@,
            ),
            Expr::Assign(a) => self.went(
                before,
                Control::Evaluate(&*a.value),
                before.frames@.push(Frame::Assign { expr: a }),
            ),
            Expr::Unary(u) => self.went(
                before,
                Control::Evaluate(&*u.right),
                before.frames@.push(Frame::Unary { expr: u }),
            ),
            Expr::Binary(b) => self.went(
                before,
                Control::Evaluate(&*b.left),
                before.frames@.push(Frame::BinaryLeft { expr: b }),
            ),
            Expr::Logical(l) => self.went(
                before,
                Control::Evaluate(&*l.left),
                before.frames@.push(Frame::Logical { expr: l }),
            ),
            Expr::Call(c) => self.went(
                before,
                Control::Evaluate(&*c.callee),
                before.frames@.push(Frame::Callee { expr: c }),
            ),
            Expr::Get(g) => self.went(
                before,
                Control::Evaluate(&*g.object),
                before.frames@.push(Frame::GetObject { expr: g }),
            ),
            Expr::SetField(s) => self.went(
                before,
                Control::Evaluate(&*s.object),
                before.frames@.push(Frame::SetObject { expr: s }),
            ),
            Expr::Super(s) => self.super_done(before, s),
        }
    }

    /// Begins the evaluation of an expression. Where that fails, nothing of the
    /// machine has changed.
    pub fn evaluate(&mut self, expr: &'a Expr) -> (r: Result<(), LoxErr>)
        requires
            old(self).wf(),
        ensures
            final(self).wf(),
            match old(self).evaluate_error(expr) {
                Some(e) => r is Err && r->Err_0@ == e && final(self).untouched(old(self)),
                None => r is Ok && final(self).evaluate_done(old(self), expr),
            },
    {
        match expr {
            Expr::Literal(literal_expr) => {
                self.control = Control::Value(literal_expr.literal.clone());
            },
            Expr::Grouping(grouping_expr) => {
                self.control = Control::Evaluate(&*grouping_expr.expression);
            },
            Expr::Variable(variable_expr) => {
                let value = self.look_up_variable(variable_expr)?;
                self.control = Control::Value(value);
            },
            Expr::This(this_expr) => {
                let value = self.look_up_variable(this_expr)?;
                self.control = Control::Value(value);
            },
            Expr::Assign(assign_expr) => {
                self.push(Frame::Assign { expr: assign_expr });
                self.control = Control::Evaluate(&*assign_expr.value);
            },
            Expr::Unary(unary_expr) => {
                self.push(Frame::Unary { expr: unary_expr });
                self.control = Control::Evaluate(&*unary_expr.right);
            },
            Expr::Binary(binary_expr) => {
                self.push(Frame::BinaryLeft { expr: binary_expr });
                self.control = Control::Evaluate(&*binary_expr.left);
            },
            Expr::Logical(logical_expr) => {
                self.push(Frame::Logical { expr: logical_expr });
                self.control = Control::Evaluate(&*logical_expr.left);
            },
            Expr::Call(call_expr) => {
                self.push(Frame::Callee { expr: call_expr });
                self.control = Control::Evaluate(&*call_expr.callee);
            },
            Expr::Get(get_expr) => {
                self.push(Frame::GetObject { expr: get_expr });
                self.control = Control::Evaluate(&*get_expr.object);
            },
            Expr::SetField(set_expr) => {
                self.push(Frame::SetObject { expr: set_expr });
                self.control = Control::Evaluate(&*set_expr.object);
            },
            Expr::Super(super_expr) => {
                return self.visit_super_expr(super_expr);
            },
        }
        Ok(())
    }

    /// Everything but the scopes, the control and the frames is as in `before`.
    pub open spec fn same_but_scopes(&self, before: &Interpreter<'a>) -> bool {
        &&& self.functions@ == before.functions@
        &&& self.classes@ == before.classes@
        &&& self.instances@ == before.instances@
        &&& self.globals == before.globals
        &&& self.had_runtime_error == before.had_runtime_error
        &&& self.environment == before.environment
    }

    /// The machine has gone on to hand over a value that is `value`, with
    /// the store and the current scope left alone.
    pub open spec fn went_with_value(
        &self,
        before: &Interpreter<'a>,
        value: ObjectView,
        frames: Seq<Frame<'a>>,
    ) -> bool {
        &&& self.same_store(before)
        &&& self.environment == before.environment
        &&& self.control matches Control::Value(o) && o@ == value
        &&& self.frames@ == frames
    }

    /// The name of the function `f`.
    pub open spec fn function_name(&self, f: usize) -> Seq<char> {
        if f < self.functions@.len() {
            self.functions@[f as int].declaration.name.lexeme@
        } else {
            Seq::empty()
        }
    }

    /// The name of the class `c`.
    pub open spec fn class_name(&self, c: usize) -> Seq<char> {
        if c < self.classes@.len() {
            self.classes@[c as int].name@
        } else {
            Seq::empty()
        }
    }

    /// The name of the class of the instance `i`.
    pub open spec fn instance_class_name(&self, i: usize) -> Seq<char> {
        if i < self.instances@.len() {
            self.class_name(self.instances@[i as int].class)
        } else {
            Seq::empty()
        }
    }

    /// How a value that is no number is printed.
    pub open spec fn display(&self, value: Object) -> Seq<char> {
        match value {
            Object::Nil => "nil"@,
            Object::Bool(b) => if b {
                "true"@
            } else {
                "false"@
            },
            Object::Class(c) => "<class "@ + self.class_name(c) + ">"@,
            Object::Instance(i) => "<"@ + self.instance_class_name(i) + " instance>"@,
            Object::String(s) => s@,
            Object::Number(_) => Seq::empty(),
            Object::Function(f) => "<fn "@ + self.function_name(f) + ">"@,
            Object::NativeFunction(n) => "<native fn "@ + n.name@,
        }
    }

    /// The text that stands for a value that is no number.
    pub fn stringify(&self, value: &Object) -> (r: String)
        ensures
            r@ == self.display(*value),
    {
        match value {
            Object::Nil => String::from_str("nil"),
            Object::Bool(b) => {
                if *b {
                    String::from_str("true")
                } else {
                    String::from_str("false")
                }
            },
            Object::Class(c) => {
                let mut text = String::from_str("<class ");
                if *c < self.classes.len() {
                    text.append(self.classes[*c].name.as_str());
                }
                text.append(">");
                assert(text@ =~= self.display(*value));
                text
            },
            Object::Instance(i) => {
                let mut text = String::from_str("<");
                if *i < self.instances.len() {
                    let c = self.instances[*i].class;
                    if c < self.classes.len() {
                        text.append(self.classes[c].name.as_str());
                    }
                }
                text.append(" instance>");
                assert(text@ =~= self.display(*value));
                text
            },
            Object::String(s) => s.clone(),
            Object::Number(_) => String::new(),
            Object::Function(f) => {
                let mut text = String::from_str("<fn ");
                if *f < self.functions.len() {
                    text.append(self.functions[*f].declaration.name.lexeme.as_str());
                }
                text.append(">");
                assert(text@ =~= self.display(*value));
                text
            },
            Object::NativeFunction(n) => {
                let mut text = String::from_str("<native fn ");
                text.append(n.name.as_str());
                text
            },
        }
    }

    /// A print statement whose value has arrived: a number is first spelled by
    /// the host, every other value is printed at once.
    pub open spec fn print_done(
        &self,
        before: &Interpreter<'a>,
        rest: Seq<Frame<'a>>,
        value: Object,
        action: ActionView,
    ) -> bool {
        match value {
            Object::Number(n) => self.went(before, Control::Awaiting(Pending::PrintNumber(n)), rest)
                && action == ActionView::FormatNumber(n),
            _ => self.went(before, Control::Completed, rest) && action == ActionView::Print(
                before.display(value),
            ),
        }
    }

    fn visit_print_stmt(&mut self, value: Object) -> (r: Action)
        requires
            old(self).wf(),
        ensures
            final(self).wf(),
            final(self).print_done(old(self), old(self).frames@, value, r@),
    {
        match value {
            Object::Number(n) => {
                self.control = Control::Awaiting(Pending::PrintNumber(n));
                Action::FormatNumber(n)
            },
            _ => {
                let text = self.stringify(&value);
                self.control = Control::Completed;
                Action::Print(text)
            },
        }
    }

    /// A variable declaration whose value has arrived: the name is bound in
    /// the current scope.
    pub open spec fn var_done(
        &self,
        before: &Interpreter<'a>,
        rest: Seq<Frame<'a>>,
        name: &Token,
        value: Object,
    ) -> bool {
        &&& self.same_but_scopes(before)
        &&& rebound(
            before.scopes.scopes@,
            self.scopes.scopes@,
            before.environment as int,
            name.lexeme@,
            value,
        )
        &&& self.control is Completed
        &&& self.frames@ == rest
    }

    fn visit_var_stmt(&mut self, name: &Token, value: Object)
        requires
            old(self).wf(),
        ensures
            final(self).wf(),
            final(self).var_done(old(self), old(self).frames@, name, value),
    {
        self.scopes.define(self.environment, name.lexeme.as_str(), value);
        self.control = Control::Completed;
    }

    /// The scope that an assignment writes to: with a distance, the scope that
    /// many steps out, which must bind the name; without, the scope among the
    /// globals that binds it.
    pub open spec fn assign_target(&self, expr: &AssignExpr) -> Option<int> {
        match expr.distance {
            Some(d) => if lookup_at(
                self.scopes.scopes@,
                self.environment as int,
                d as nat,
                expr.name.lexeme@,
            ).is_some() {
                ancestor_of(self.scopes.scopes@, self.environment as int, d as nat)
            } else {
                None
            },
            None => binding_scope(self.scopes.scopes@, self.globals as int, expr.name.lexeme@),
        }
    }

    pub open spec fn assign_error(&self, expr: &AssignExpr) -> Option<LoxErrView> {
        if self.assign_target(expr).is_none() {
            Some(runtime_error(expr.name.line, undefined_variable(expr.name.lexeme@)))
        } else {
            None
        }
    }

    /// An assignment whose value has arrived: the name has the value, and the
    /// value is that of the assignment.
    pub open spec fn assign_done(
        &self,
        before: &Interpreter<'a>,
        rest: Seq<Frame<'a>>,
        expr: &AssignExpr,
        value: Object,
    ) -> bool {
        &&& self.same_but_scopes(before)
        &&& rebound(
            before.scopes.scopes@,
            self.scopes.scopes@,
            before.assign_target(expr).unwrap(),
            expr.name.lexeme@,
            value,
        )
        &&& self.control == Control::Value(value)
        &&& self.frames@ == rest
    }

    fn visit_assign_expr(&mut self, assign_expr: &AssignExpr, value: Object) -> (r: Result<
        (),
        LoxErr,
    >)
        requires
            old(self).wf(),
        ensures
            final(self).wf(),
            match old(self).assign_error(assign_expr) {
                Some(e) => r is Err && r->Err_0@ == e && final(self).untouched(old(self)),
                None => r is Ok && final(self).assign_done(
                    old(self),
                    old(self).frames@,
                    assign_expr,
                    value,
                ),
            },
    {
        match assign_expr.distance {
            Some(distance) => {
                if !self.scopes.contains_at(
                    self.environment,
                    distance,
                    assign_expr.name.lexeme.as_str(),
                ) {
                    return Err(undefined_variable_error(&assign_expr.name));
                }
                self.scopes.assign_at(
                    self.environment,
                    distance,
                    &assign_expr.name,
                    value.clone(),
                );
            },
            None => {
                self.scopes.assign(self.globals, &assign_expr.name, value.clone())?;
            },
        }
        self.control = Control::Value(value);
        Ok(())
    }

    pub open spec fn unary_error(expr: &UnaryExpr, value: Object) -> Option<LoxErrView> {
        match unary(expr.operator.token_type, value@) {
            ComputedView::Failure(m) => Some(runtime_error(expr.operator.line, m)),
            _ => None,
        }
    }

    /// A unary expression whose operand has arrived.
    pub open spec fn unary_done(
        &self,
        before: &Interpreter<'a>,
        rest: Seq<Frame<'a>>,
        expr: &UnaryExpr,
        value: Object,
    ) -> bool {
        self.went_with_value(before, unary(expr.operator.token_type, value@)->Value_0, rest)
    }

    fn visit_unary_expr(&mut self, unary_expr: &UnaryExpr, right: Object) -> (r: Result<(), LoxErr>)
        requires
            old(self).wf(),
        ensures
            final(self).wf(),
            match Self::unary_error(unary_expr, right) {
                Some(e) => r is Err && r->Err_0@ == e && final(self).untouched(old(self)),
                None => r is Ok && final(self).unary_done(
                    old(self),
                    old(self).frames@,
                    unary_expr,
                    right,
                ),
            },
    {
        match apply_unary(unary_expr.operator.token_type, &right) {
            Computed::Value(v) => {
                self.control = Control::Value(v);
                Ok(())
            },
            Computed::Failure(message) => Err(
                LoxErr::Runtime { line: unary_expr.operator.line, message },
            ),
            _ => Ok(()),
        }
    }

    pub open spec fn binary_error(expr: &BinaryExpr, left: Object, right: Object) -> Option<
        LoxErrView,
    > {
        match binary(expr.operator.token_type, left@, right@) {
            ComputedView::Failure(m) => Some(runtime_error(expr.operator.line, m)),
            _ => None,
        }
    }

    /// A binary expression whose operands have arrived: the value where the
    /// machine can compute it; else the host is asked for the arithmetic, or,
    /// after a division by zero, for the spelling of the dividend.
    pub open spec fn binary_done(
        &self,
        before: &Interpreter<'a>,
        rest: Seq<Frame<'a>>,
        expr: &BinaryExpr,
        left: Object,
        right: Object,
        action: ActionView,
    ) -> bool {
        match binary(expr.operator.token_type, left@, right@) {
            ComputedView::Value(v) => self.went_with_value(before, v, rest) && action
                == ActionView::Continue,
            ComputedView::Arithmetic { operator, left, right } => self.went(
                before,
                Control::Awaiting(Pending::Arithmetic { operator, left, right }),
                rest,
            ) && action == (ActionView::Arithmetic { operator, left, right }),
            ComputedView::DivideByZero { left } => self.went(
                before,
                Control::Awaiting(Pending::DivisionText { left, line: expr.operator.line }),
                rest,
            ) && action == ActionView::FormatNumber(left),
            ComputedView::Failure(_) => false,
        }
    }

    fn visit_binary_expr(&mut self, binary_expr: &BinaryExpr, left: Object, right: Object) -> (r:
        Result<Action, LoxErr>)
        requires
            old(self).wf(),
        ensures
            final(self).wf(),
            match Self::binary_error(binary_expr, left, right) {
                Some(e) => r is Err && r->Err_0@ == e && final(self).untouched(old(self)),
                None => r is Ok && final(self).binary_done(
                    old(self),
                    old(self).frames@,
                    binary_expr,
                    left,
                    right,
                    r->Ok_0@,
                ),
            },
    {
        match apply_binary(binary_expr.operator.token_type, &left, &right) {
            Computed::Value(v) => {
                self.control = Control::Value(v);
                Ok(Action::Continue)
            },
            Computed::Arithmetic { operator, left, right } => {
                self.control = Control::Awaiting(Pending::Arithmetic { operator, left, right });
                Ok(Action::Arithmetic { operator, left, right })
            },
            Computed::DivideByZero { left } => {
                self.control = Control::Awaiting(
                    Pending::DivisionText { left, line: binary_expr.operator.line },
                );
                Ok(Action::FormatNumber(left))
            },
            Computed::Failure(message) => Err(
                LoxErr::Runtime { line: binary_expr.operator.line, message },
            ),
        }
    }

    /// `and` or `or` whose left operand has arrived: the operand is the value
    /// if it decides, else the right operand is evaluated.
    pub open spec fn logical_done(
        &self,
        before: &Interpreter<'a>,
        rest: Seq<Frame<'a>>,
        expr: &'a LogicalExpr,
        left: Object,
    ) -> bool {
        if decided_by_left(expr.operator.token_type, left@) {
            self.went(before, Control::Value(left), rest)
        } else {
            self.went(before, Control::Evaluate(&*expr.right), rest)
        }
    }

    fn visit_logical_expr(&mut self, logical_expr: &'a LogicalExpr, left: Object)
        requires
            old(self).wf(),
        ensures
            final(self).wf(),
            final(self).logical_done(old(self), old(self).frames@, logical_expr, left),
    {
        if left_decides(logical_expr.operator.token_type, &left) {
            self.control = Control::Value(left);
        } else {
            self.control = Control::Evaluate(&*logical_expr.right);
        }
    }

    /// An `if` whose condition has arrived.
    pub open spec fn if_done(
        &self,
        before: &Interpreter<'a>,
        rest: Seq<Frame<'a>>,
        then_branch: &'a Stmt,
        else_branch: Option<&'a Stmt>,
        value: Object,
    ) -> bool {
        if truthy(value@) {
            self.went(before, Control::Execute(then_branch), rest)
        } else {
            match else_branch {
                Some(other) => self.went(before, Control::Execute(other), rest),
                None => self.went(before, Control::Completed, rest),
            }
        }
    }

    fn visit_if_stmt(&mut self, then_branch: &'a Stmt, else_branch: Option<&'a Stmt>, value: Object)
        requires
            old(self).wf(),
        ensures
            final(self).wf(),
            final(self).if_done(old(self), old(self).frames@, then_branch, else_branch, value),
    {
        if value.is_truthy() {
            self.control = Control::Execute(then_branch);
        } else {
            match else_branch {
                Some(exist_else_branch) => {
                    self.control = Control::Execute(exist_else_branch);
                },
                None => {
                    self.control = Control::Completed;
                },
            }
        }
    }

    /// A `while` whose condition has arrived: the body runs and the loop
    /// waits for it, or the loop is done.
    pub open spec fn while_done(
        &self,
        before: &Interpreter<'a>,
        rest: Seq<Frame<'a>>,
        condition: &'a Expr,
        body: &'a Stmt,
        value: Object,
    ) -> bool {
        if truthy(value@) {
            self.went(before, Control::Execute(body), rest.push(Frame::While { condition, body }))
        } else {
            self.went(before, Control::Completed, rest)
        }
    }

    fn visit_while_stmt(&mut self, condition: &'a Expr, body: &'a Stmt, value: Object)
        requires
            old(self).wf(),
        ensures
            final(self).wf(),
            final(self).while_done(old(self), old(self).frames@, condition, body, value),
    {
        if value.is_truthy() {
            self.push(Frame::While { condition, body });
            self.control = Control::Execute(body);
        } else {
            self.control = Control::Completed;
        }
    }

    /// The class and the instance that `super` refers to: `super` is bound to
    /// a class in the scope at the recorded distance, `this` to an instance
    /// in the scope one step nearer.
    pub open spec fn super_parts(&self, expr: &SuperExpr) -> Option<(usize, usize)> {
        match expr.distance {
            Some(d) => if d >= 1 {
                match (
                    lookup_at(self.scopes.scopes@, self.environment as int, d as nat, "super"@),
                    lookup_at(
                        self.scopes.scopes@,
                        self.environment as int,
                        (d - 1) as nat,
                        "this"@,
                    ),
                ) {
                    (Some(Object::Class(c)), Some(Object::Instance(i))) => if c
                        < self.classes@.len() && i < self.instances@.len() {
                        Some((c, i))
                    } else {
                        None
                    },
                    _ => None,
                }
            } else {
                None
            },
            None => None,
        }
    }

    /// The method that `super.method` names.
    pub open spec fn super_method(&self, expr: &SuperExpr) -> Option<usize> {
        match self.super_parts(expr) {
            Some((c, i)) => method_of(self.classes@, c as int, expr.method.lexeme@),
            None => None,
        }
    }

    pub open spec fn super_error(&self, expr: &SuperExpr) -> Option<LoxErrView> {
        if self.super_parts(expr).is_none() {
            Some(runtime_error(expr.keyword.line, undefined_variable(expr.keyword.lexeme@)))
        } else if self.super_method(expr).is_none() {
            Some(runtime_error(expr.method.line, undefined_property(expr.method.lexeme@)))
        } else {
            None
        }
    }

    /// `super.method`, evaluated: the method of the superclass, bound to the
    /// instance that `this` stands for.
    pub open spec fn super_done(&self, before: &Interpreter<'a>, expr: &'a SuperExpr) -> bool {
        &&& LoxFunction::bound(
            self,
            before,
            before.super_method(expr).unwrap(),
            before.super_parts(expr).unwrap().1,
        )
        &&& self.control == Control::Value(Object::Function(before.functions@.len() as usize))
        &&& self.frames@ == before.frames@
    }

    fn find_super_parts(&self, super_expr: &SuperExpr) -> (r: Option<(usize, usize)>)
        requires
            self.wf(),
        ensures
            r == self.super_parts(super_expr),
    {
        match super_expr.distance {
            Some(distance) => {
                if distance < 1 {
                    return None;
                }
                if !self.scopes.contains_at(self.environment, distance, "super") {
                    return None;
                }
                if !self.scopes.contains_at(self.environment, distance - 1, "this") {
                    return None;
                }
                let superclass = self.scopes.get_at(self.environment, distance, "super");
                let object = self.scopes.get_at(self.environment, distance - 1, "this");
                match (superclass, object) {
                    (Object::Class(c), Object::Instance(i)) => {
                        if c < self.classes.len() && i < self.instances.len() {
                            Some((c, i))
                        } else {
                            None
                        }
                    },
                    _ => None,
                }
            },
            None => None,
        }
    }

    fn visit_super_expr(&mut self, super_expr: &'a SuperExpr) -> (r: Result<(), LoxErr>)
        requires
            old(self).wf(),
        ensures
            final(self).wf(),
            match old(self).super_error(super_expr) {
                Some(e) => r is Err && r->Err_0@ == e && final(self).untouched(old(self)),
                None => r is Ok && final(self).super_done(old(self), super_expr),
            },
    {
        let (class, instance) = match self.find_super_parts(super_expr) {
            Some(parts) => parts,
            None => {
                return Err(undefined_variable_error(&super_expr.keyword));
            },
        };
        let method = match LoxClass::find_method(
            &self.classes,
            class,
            super_expr.method.lexeme.as_str(),
        ) {
            Some(f) => f,
            None => {
                return Err(undefined_property_error(&super_expr.method));
            },
        };
        proof {
            lemma_method_is_a_function(
                self.classes@,
                class as int,
                super_expr.method.lexeme@,
                self.functions@.len(),
            );
        }
        let bound = LoxFunction::bind(self, method, instance);
        self.control = Control::Value(Object::Function(bound));
        Ok(())
    }

    /// The instance that a value is, if it is one of the store.
    pub open spec fn instance_of(&self, value: Object) -> Option<usize> {
        match value {
            Object::Instance(i) => if i < self.instances@.len() {
                Some(i)
            } else {
                None
            },
            _ => None,
        }
    }

    fn as_instance(&self, value: &Object) -> (r: Option<usize>)
        ensures
            r == self.instance_of(*value),
    {
        match value {
            Object::Instance(i) => {
                if *i < self.instances.len() {
                    Some(*i)
                } else {
                    None
                }
            },
            _ => None,
        }
    }

    pub open spec fn get_error(&self, expr: &GetExpr, object: Object) -> Option<LoxErrView> {
        match self.instance_of(object) {
            Some(i) => match LoxInstance::property(self, i, expr.name.lexeme@) {
                Property::Missing => Some(
                    runtime_error(expr.name.line, undefined_property(expr.name.lexeme@)),
                ),
                _ => None,
            },
            None => Some(runtime_error(expr.name.line, "Only instances have properties."@)),
        }
    }

    /// A property read whose object has arrived.
    pub open spec fn get_done(
        &self,
        before: &Interpreter<'a>,
        rest: Seq<Frame<'a>>,
        expr: &GetExpr,
        object: Object,
    ) -> bool {
        let i = before.instance_of(object).unwrap();
        &&& self.frames@ == rest
        &&& match LoxInstance::property(before, i, expr.name.lexeme@) {
            Property::Field(v) => self.same_store(before) && self.environment == before.environment
                && self.control == Control::Value(v),
            Property::Method(f) => LoxFunction::bound(self, before, f, i) && self.control
                == Control::Value(Object::Function(before.functions@.len() as usize)),
            Property::Missing => false,
        }
    }

    fn visit_get_expr(&mut self, get_expr: &GetExpr, object: Object) -> (r: Result<(), LoxErr>)
        requires
            old(self).wf(),
        ensures
            final(self).wf(),
            match old(self).get_error(get_expr, object) {
                Some(e) => r is Err && r->Err_0@ == e && final(self).untouched(old(self)),
                None => r is Ok && final(self).get_done(
                    old(self),
                    old(self).frames@,
                    get_expr,
                    object,
                ),
            },
    {
        match self.as_instance(&object) {
            Some(instance) => {
                let value = LoxInstance::get(self, instance, &get_expr.name)?;
                self.control = Control::Value(value);
                Ok(())
            },
            None => Err(runtime(get_expr.name.line, "Only instances have properties.")),
        }
    }

    pub open spec fn set_error(&self, expr: &SetExpr, object: Object) -> Option<LoxErrView> {
        match self.instance_of(object) {
            Some(_) => None,
            None => Some(runtime_error(expr.name.line, "Only instances have fields."@)),
        }
    }

    /// A property write whose object has arrived: the value is evaluated next.
    pub open spec fn set_object_done(
        &self,
        before: &Interpreter<'a>,
        rest: Seq<Frame<'a>>,
        expr: &'a SetExpr,
        object: Object,
    ) -> bool {
        self.went(
            before,
            Control::Evaluate(&*expr.value),
            rest.push(Frame::SetValue { expr, instance: before.instance_of(object).unwrap() }),
        )
    }

    fn visit_set_object(&mut self, set_expr: &'a SetExpr, object: Object) -> (r: Result<(), LoxErr>)
        requires
            old(self).wf(),
        ensures
            final(self).wf(),
            match old(self).set_error(set_expr, object) {
                Some(e) => r is Err && r->Err_0@ == e && final(self).untouched(old(self)),
                None => r is Ok && final(self).set_object_done(
                    old(self),
                    old(self).frames@,
                    set_expr,
                    object,
                ),
            },
    {
        match self.as_instance(&object) {
            Some(instance) => {
                self.push(Frame::SetValue { expr: set_expr, instance });
                self.control = Control::Evaluate(&*set_expr.value);
                Ok(())
            },
            None => Err(runtime(set_expr.name.line, "Only instances have fields.")),
        }
    }

    /// A property write whose value has arrived: the field holds the value,
    /// and the value is that of the expression.
    pub open spec fn set_done(
        &self,
        before: &Interpreter<'a>,
        rest: Seq<Frame<'a>>,
        expr: &SetExpr,
        instance: usize,
        value: Object,
    ) -> bool {
        &&& self.scopes.scopes@ == before.scopes.scopes@
        &&& self.functions@ == before.functions@
        &&& self.classes@ == before.classes@
        &&& self.globals == before.globals
        &&& self.had_runtime_error == before.had_runtime_error
        &&& self.environment == before.environment
        &&& self.instances@.len() == before.instances@.len()
        &&& forall|j: int|
            0 <= j < before.instances@.len() && j != instance ==> self.instances@[j]
                == before.instances@[j]
        &&& self.instances@[instance as int].class == before.instances@[instance as int].class
        &&& self.instances@[instance as int].fields@
            == before.instances@[instance as int].fields@.insert(expr.name.lexeme@, value)
        &&& self.control == Control::Value(value)
        &&& self.frames@ == rest
    }

    fn visit_set_expr(&mut self, set_expr: &SetExpr, instance: usize, value: Object)
        requires
            old(self).wf(),
            instance < old(self).instances@.len(),
        ensures
            final(self).wf(),
            final(self).set_done(old(self), old(self).frames@, set_expr, instance, value),
    {
        self.instances[instance].set(&set_expr.name, value.clone());
        self.control = Control::Value(value);
    }

    /// The number of arguments that a callee takes; none for what cannot be
    /// called.
    pub open spec fn arity_of(&self, callee: Object) -> Option<nat> {
        match callee {
            Object::Function(f) => if f < self.functions@.len() {
                Some(self.functions@[f as int].declaration.params@.len())
            } else {
                None
            },
            Object::NativeFunction(n) => if n.name@ == "clock"@ {
                Some(0)
            } else {
                None
            },
            Object::Class(c) => if c < self.classes@.len() {
                Some(LoxClass::arity_of(self, c))
            } else {
                None
            },
            _ => None,
        }
    }

    fn arity(&self, callee: &Object) -> (r: Option<usize>)
        requires
            self.wf(),
        ensures
            match r {
                Some(n) => self.arity_of(*callee) == Some(n as nat),
                None => self.arity_of(*callee).is_none(),
            },
    {
        match callee {
            Object::Function(f) => {
                if *f < self.functions.len() {
                    Some(self.functions[*f].arity())
                } else {
                    None
                }
            },
            Object::NativeFunction(n) => {
                if n.name == String::from_str("clock") {
                    Some(n.arity())
                } else {
                    None
                }
            },
            Object::Class(c) => {
                if *c < self.classes.len() {
                    Some(LoxClass::arity(self, *c))
                } else {
                    None
                }
            },
            _ => None,
        }
    }

    /// The message for a call with the wrong number of arguments.
    pub open spec fn wrong_arity(expected: nat, got: nat) -> Seq<char> {
        "Expected "@ + decimal_text(expected) + " arguments but got "@ + decimal_text(got) + "."@
    }

    pub open spec fn call_error(
        &self,
        expr: &CallExpr,
        callee: Object,
        arguments: Seq<Object>,
    ) -> Option<LoxErrView> {
        match self.arity_of(callee) {
            None => Some(runtime_error(expr.paren.line, "Can only call functions and classes."@)),
            Some(n) => if n != arguments.len() {
                Some(runtime_error(expr.paren.line, Self::wrong_arity(n, arguments.len())))
            } else {
                None
            },
        }
    }

    /// A call whose callee and arguments have arrived: the call of a function
    /// or of a class has begun, or the host is asked for the clock.
    pub open spec fn call_done(
        &self,
        before: &Interpreter<'a>,
        rest: Seq<Frame<'a>>,
        callee: Object,
        arguments: Seq<Object>,
        action: ActionView,
    ) -> bool {
        match callee {
            Object::Function(f) => LoxFunction::called(self, before, rest, f, arguments) && action
                == ActionView::Continue,
            Object::Class(c) => LoxClass::called(self, before, rest, c, arguments) && action
                == ActionView::Continue,
            _ => self.went(before, Control::Awaiting(Pending::Clock), rest) && action
                == ActionView::ReadClock,
        }
    }

    fn visit_call_expr(&mut self, call_expr: &CallExpr, callee: Object, arguments: Vec<Object>) -> (r:
        Result<Action, LoxErr>)
        requires
            old(self).wf(),
        ensures
            final(self).wf(),
            match old(self).call_error(call_expr, callee, arguments@) {
                Some(e) => r is Err && r->Err_0@ == e && final(self).untouched(old(self)),
                None => r is Ok && final(self).call_done(
                    old(self),
                    old(self).frames@,
                    callee,
                    arguments@,
                    r->Ok_0@,
                ),
            },
    {
        let arity = match self.arity(&callee) {
            Some(n) => n,
            None => {
                return Err(runtime(call_expr.paren.line, "Can only call functions and classes."));
            },
        };
        if arguments.len() != arity {
            let mut message = String::from_str("Expected ");
            push_decimal(&mut message, arity);
            message.append(" arguments but got ");
            push_decimal(&mut message, arguments.len());
            message.append(".");
            assert(message@ =~= Self::wrong_arity(arity as nat, arguments@.len()));
            return Err(LoxErr::Runtime { line: call_expr.paren.line, message });
        }
        match callee {
            Object::Function(function) => {
                LoxFunction::call(self, function, arguments);
                Ok(Action::Continue)
            },
            Object::Class(class) => {
                LoxClass::call(self, class, arguments);
                Ok(Action::Continue)
            },
            Object::NativeFunction(native) => Ok(native.call(self)),
            _ => Ok(Action::Continue),
        }
    }

    /// The arguments of a call are being collected: those in `arguments` have
    /// arrived, the next is being evaluated.
    pub open spec fn collecting(
        &self,
        before: &Interpreter<'a>,
        rest: Seq<Frame<'a>>,
        expr: &'a CallExpr,
        callee: Object,
        arguments: Seq<Object>,
    ) -> bool {
        &&& self.same_store(before)
        &&& self.environment == before.environment
        &&& arguments.len() < expr.arguments@.len()
        &&& self.control == Control::Evaluate(&expr.arguments@[arguments.len() as int])
        &&& self.frames@.len() == rest.len() + 1
        &&& self.frames@.drop_last() == rest
        &&& match self.frames@.last() {
            Frame::Argument { expr: e, callee: c, arguments: a } => e == expr && c == callee && a@
                == arguments,
            _ => false,
        }
    }

    /// What the arrival of the last awaited part of a call fails with.
    pub open spec fn collect_error(
        &self,
        expr: &CallExpr,
        callee: Object,
        arguments: Seq<Object>,
    ) -> Option<LoxErrView> {
        if arguments.len() < expr.arguments@.len() {
            None
        } else {
            self.call_error(expr, callee, arguments)
        }
    }

    /// A call whose callee, or one more of whose arguments, has arrived: the
    /// next argument is evaluated, or, if none is left, the call is made.
    pub open spec fn collect_done(
        &self,
        before: &Interpreter<'a>,
        rest: Seq<Frame<'a>>,
        expr: &'a CallExpr,
        callee: Object,
        arguments: Seq<Object>,
        action: ActionView,
    ) -> bool {
        if arguments.len() < expr.arguments@.len() {
            self.collecting(before, rest, expr, callee, arguments) && action
                == ActionView::Continue
        } else {
            self.call_done(before, rest, callee, arguments, action)
        }
    }

    fn collect(&mut self, call_expr: &'a CallExpr, callee: Object, arguments: Vec<Object>) -> (r:
        Result<Action, LoxErr>)
        requires
            old(self).wf(),
        ensures
            final(self).wf(),
            match old(self).collect_error(call_expr, callee, arguments@) {
                Some(e) => r is Err && r->Err_0@ == e && final(self).untouched(old(self)),
                None => r is Ok && final(self).collect_done(
                    old(self),
                    old(self).frames@,
                    call_expr,
                    callee,
                    arguments@,
                    r->Ok_0@,
                ),
            },
    {
        if arguments.len() < call_expr.arguments.len() {
            let next = &call_expr.arguments[arguments.len()];
            self.push(Frame::Argument { expr: call_expr, callee, arguments });
            self.control = Control::Evaluate(next);
            assert(self.frames@.drop_last() =~= old(self).frames@);
            Ok(Action::Continue)
        } else {
            self.visit_call_expr(call_expr, callee, arguments)
        }
    }

    /// The value of a call of the function `function` that has ended with
    /// `value`: an initializer gives the instance that `this` stands for in
    /// its closure, every other function gives `value`.
    pub open spec fn call_value(&self, function: usize, value: Object) -> Object {
        let f = self.functions@[function as int];
        if f.is_initializer {
            match lookup_at(self.scopes.scopes@, f.closure as int, 0, "this"@) {
                Some(this) => this,
                None => Object::Nil,
            }
        } else {
            value
        }
    }

    fn finish_call(&mut self, function: usize, value: Object)
        requires
            old(self).wf(),
            function < old(self).functions@.len(),
        ensures
            final(self).wf(),
            final(self).went(
                old(self),
                Control::Value(old(self).call_value(function, value)),
                old(self).frames@,
            ),
    {
        if self.functions[function].is_initializer {
            let closure = self.functions[function].closure;
            if self.scopes.contains_at(closure, 0, "this") {
                self.control = Control::Value(self.scopes.get_at(closure, 0, "this"));
            } else {
                self.control = Control::Value(Object::Nil);
            }
        } else {
            self.control = Control::Value(value);
        }
    }

    /// Enters the statements `stmts`, to be run in the scope `environment`;
    /// the scope that was current is gone back to behind them.
    pub fn execute_block(&mut self, stmts: &'a Vec<Stmt>, environment: usize)
        requires
            old(self).wf(),
            environment < old(self).scopes.scopes@.len(),
        ensures
            final(self).wf(),
            final(self).same_store(old(self)),
            final(self).environment == environment,
            final(self).control is Completed,
            final(self).frames@ == old(self).frames@.push(
                Frame::Block { statements: stmts, next: 0, previous: old(self).environment },
            ),
    {
        let previous = self.environment;
        self.push(Frame::Block { statements: stmts, next: 0, previous });
        self.environment = environment;
        self.control = Control::Completed;
    }

    /// A block, entered: its statements wait to be run in a new scope inside
    /// the current one.
    pub open spec fn block_done(
        &self,
        before: &Interpreter<'a>,
        rest: Seq<Frame<'a>>,
        stmts: &'a Vec<Stmt>,
    ) -> bool {
        &&& grown(
            before.scopes.scopes@,
            self.scopes.scopes@,
            Some(before.environment),
            Map::empty(),
        )
        &&& self.environment == before.scopes.scopes@.len()
        &&& self.functions@ == before.functions@
        &&& self.classes@ == before.classes@
        &&& self.instances@ == before.instances@
        &&& self.globals == before.globals
        &&& self.had_runtime_error == before.had_runtime_error
        &&& self.control is Completed
        &&& self.frames@ == rest.push(
            Frame::Block { statements: stmts, next: 0, previous: before.environment },
        )
    }

    fn visit_block_stmt(&mut self, stmts: &'a Vec<Stmt>)
        requires
            old(self).wf(),
        ensures
            final(self).wf(),
            final(self).block_done(old(self), old(self).frames@, stmts),
    {
        let block_env = self.scopes.nested(self.environment);
        self.execute_block(stmts, block_env);
    }

    /// A function declaration, executed: the function, whose closure is the
    /// current scope, is bound to its name there.
    pub open spec fn function_done(
        &self,
        before: &Interpreter<'a>,
        rest: Seq<Frame<'a>>,
        declaration: &'a FunctionDeclaration,
    ) -> bool {
        &&& self.functions@ == before.functions@.push(
            LoxFunction { declaration, closure: before.environment, is_initializer: false },
        )
        &&& rebound(
            before.scopes.scopes@,
            self.scopes.scopes@,
            before.environment as int,
            declaration.name.lexeme@,
            Object::Function(before.functions@.len() as usize),
        )
        &&& self.classes@ == before.classes@
        &&& self.instances@ == before.instances@
        &&& self.globals == before.globals
        &&& self.had_runtime_error == before.had_runtime_error
        &&& self.environment == before.environment
        &&& self.control is Completed
        &&& self.frames@ == rest
    }

    fn visit_function_declaration_stmt(&mut self, function_declaration: &'a FunctionDeclaration)
        requires
            old(self).wf(),
        ensures
            final(self).wf(),
            final(self).function_done(old(self), old(self).frames@, function_declaration),
    {
        let id = self.functions.len();
        self.functions.push(LoxFunction::new(function_declaration, self.environment, false));
        self.scopes.define(
            self.environment,
            function_declaration.name.lexeme.as_str(),
            Object::Function(id),
        );
        self.control = Control::Completed;
    }

    /// A statement is done: the frame on top says how the machine goes on.
    pub open spec fn advance_done(&self, before: &Interpreter<'a>, action: ActionView) -> bool {
        if before.frames@.len() == 0 {
            self.went(before, Control::Idle, before.frames@) && action == ActionView::Finished
        } else {
            let rest = before.frames@.drop_last();
            &&& action == ActionView::Continue
            &&& match before.frames@.last() {
                Frame::Program { statements, next } => if next < statements@.len() {
                    self.went(
                        before,
                        Control::Execute(&statements@[next as int]),
                        rest.push(Frame::Program { statements, next: (next + 1) as usize }),
                    )
                } else {
                    self.went(before, Control::Completed, rest)
                },
                Frame::Block { statements, next, previous } => if next < statements@.len() {
                    self.went(
                        before,
                        Control::Execute(&statements@[next as int]),
                        rest.push(
                            Frame::Block { statements, next: (next + 1) as usize, previous },
                        ),
                    )
                } else {
                    &&& self.same_store(before)
                    &&& self.environment == previous
                    &&& self.control is Completed
                    &&& self.frames@ == rest
                },
                Frame::While { condition, body } => self.went(
                    before,
                    Control::Evaluate(condition),
                    before.frames@,
                ),
                Frame::Call { function } => self.went(
                    before,
                    Control::Value(before.call_value(function, Object::Nil)),
                    rest,
                ),
                _ => self.went(before, Control::Completed, rest),
            }
        }
    }

    fn advance(&mut self) -> (r: Action)
        requires
            old(self).wf(),
        ensures
            final(self).wf(),
            final(self).advance_done(old(self), r@),
    {
        match self.frames.pop() {
            None => {
                self.control = Control::Idle;
                Action::Finished
            },
            Some(frame) => {
                assert(frame == old(self).frames@.last());
                assert(self.frames@ == old(self).frames@.drop_last());
                assert(frame_ok(
                    old(self).frames@[old(self).frames@.len() - 1],
                    self.scopes.scopes@.len(),
                    self.functions@.len(),
                    self.instances@.len(),
                ));
                match frame {
                    Frame::Program { statements, next } => {
                        if next < statements.len() {
                            self.push(Frame::Program { statements, next: next + 1 });
                            self.control = Control::Execute(&statements[next]);
                        } else {
                            self.control = Control::Completed;
                        }
                    },
                    Frame::Block { statements, next, previous } => {
                        if next < statements.len() {
                            self.push(Frame::Block { statements, next: next + 1, previous });
                            self.control = Control::Execute(&statements[next]);
                        } else {
                            self.environment = previous;
                            self.control = Control::Completed;
                        }
                    },
                    Frame::While { condition, body } => {
                        self.push(Frame::While { condition, body });
                        self.control = Control::Evaluate(condition);
                        assert(self.frames@ =~= old(self).frames@);
                    },
                    Frame::Call { function } => {
                        self.finish_call(function, Object::Nil);
                    },
                    _ => {
                        self.control = Control::Completed;
                    },
                }
                Action::Continue
            },
        }
    }

    /// A `return` unwinds: the frame on top is dropped; a block gives the
    /// scope back that was current before it; the call that is met first
    /// ends with the value.
    pub open spec fn unwind_done(
        &self,
        before: &Interpreter<'a>,
        value: Object,
        action: ActionView,
    ) -> bool {
        if before.frames@.len() == 0 {
            self.went(before, Control::Idle, before.frames@) && action == ActionView::Finished
        } else {
            let rest = before.frames@.drop_last();
            &&& action == ActionView::Continue
            &&& match before.frames@.last() {
                Frame::Call { function } => self.went(
                    before,
                    Control::Value(before.call_value(function, value)),
                    rest,
                ),
                Frame::Block { statements, next, previous } => {
                    &&& self.same_store(before)
                    &&& self.environment == previous
                    &&& self.control == Control::Returning(value)
                    &&& self.frames@ == rest
                },
                _ => self.went(before, Control::Returning(value), rest),
            }
        }
    }

    fn unwind(&mut self, value: Object) -> (r: Action)
        requires
            old(self).wf(),
        ensures
            final(self).wf(),
            final(self).unwind_done(old(self), value, r@),
    {
        match self.frames.pop() {
            None => {
                self.control = Control::Idle;
                Action::Finished
            },
            Some(frame) => {
                assert(frame == old(self).frames@.last());
                assert(self.frames@ == old(self).frames@.drop_last());
                assert(frame_ok(
                    old(self).frames@[old(self).frames@.len() - 1],
                    self.scopes.scopes@.len(),
                    self.functions@.len(),
                    self.instances@.len(),
                ));
                match frame {
                    Frame::Call { function } => {
                        self.finish_call(function, value);
                    },
                    Frame::Block { statements, next, previous } => {
                        self.environment = previous;
                        self.control = Control::Returning(value);
                    },
                    _ => {
                        self.control = Control::Returning(value);
                    },
                }
                Action::Continue
            },
        }
    }

    /// The message of a division by zero of the number spelled `left`.
    pub open spec fn divided_by_zero(left: Seq<char>) -> Seq<char> {
        "Attempt to divide `"@ + left + "` by zero."@
    }

    pub open spec fn receive_error(pending: Pending, event: Event) -> Option<LoxErrView> {
        match (pending, event) {
            (Pending::DivisionText { left, line }, Event::Text(s)) => Some(
                runtime_error(line, Self::divided_by_zero(s@)),
            ),
            _ => None,
        }
    }

    /// The host has answered. A number that was asked for is the value; a
    /// spelling that was asked for is printed. An answer of another kind than
    /// the one awaited changes nothing, and the host is asked again.
    pub open spec fn receive_done(
        &self,
        before: &Interpreter<'a>,
        pending: Pending,
        event: Event,
        action: ActionView,
    ) -> bool {
        match (pending, event) {
            (Pending::Arithmetic { .. }, Event::Number(n)) => self.went(
                before,
                Control::Value(Object::Number(n)),
                before.frames@,
            ) && action == ActionView::Continue,
            (Pending::Clock, Event::Number(n)) => self.went(
                before,
                Control::Value(Object::Number(n)),
                before.frames@,
            ) && action == ActionView::Continue,
            (Pending::PrintNumber(_), Event::Text(s)) => self.went(
                before,
                Control::Completed,
                before.frames@,
            ) && action == ActionView::Print(s@),
            _ => self.went(before, Control::Awaiting(pending), before.frames@) && action
                == request(pending),
        }
    }

    fn receive(&mut self, pending: Pending, event: Event) -> (r: Result<Action, LoxErr>)
        requires
            old(self).wf(),
        ensures
            final(self).wf(),
            match Self::receive_error(pending, event) {
                Some(e) => r is Err && r->Err_0@ == e && final(self).untouched(old(self)),
                None => r is Ok && final(self).receive_done(old(self), pending, event, r->Ok_0@),
            },
    {
        match (pending, event) {
            (Pending::Arithmetic { operator, left, right }, Event::Number(n)) => {
                self.control = Control::Value(Object::Number(n));
                Ok(Action::Continue)
            },
            (Pending::Clock, Event::Number(n)) => {
                self.control = Control::Value(Object::Number(n));
                Ok(Action::Continue)
            },
            (Pending::PrintNumber(_), Event::Text(s)) => {
                self.control = Control::Completed;
                Ok(Action::Print(s))
            },
            (Pending::DivisionText { left, line }, Event::Text(s)) => {
                let mut message = String::from_str("Attempt to divide `");
                message.append(s.as_str());
                message.append("` by zero.");
                Err(LoxErr::Runtime { line, message })
            },
            (Pending::Arithmetic { operator, left, right }, _) => {
                self.control = Control::Awaiting(Pending::Arithmetic { operator, left, right });
                Ok(Action::Arithmetic { operator, left, right })
            },
            (Pending::Clock, _) => {
                self.control = Control::Awaiting(Pending::Clock);
                Ok(Action::ReadClock)
            },
            (Pending::PrintNumber(n), _) => {
                self.control = Control::Awaiting(Pending::PrintNumber(n));
                Ok(Action::FormatNumber(n))
            },
            (Pending::DivisionText { left, line }, _) => {
                self.control = Control::Awaiting(Pending::DivisionText { left, line });
                Ok(Action::FormatNumber(left))
            },
        }
    }

    /// The superclass that a class declaration names: none, the class that
    /// the name stands for, or the failure to find one.
    pub open spec fn superclass_of(&self, declaration: &ClassDeclaration) -> Result<
        Option<usize>,
        LoxErrView,
    > {
        match declaration.superclass {
            None => Ok(None),
            Some(v) => match self.looked_up(v.name.lexeme@, v.distance) {
                None => Err(runtime_error(v.name.line, undefined_variable(v.name.lexeme@))),
                Some(Object::Class(c)) => if c < self.classes@.len() {
                    Ok(Some(c))
                } else {
                    Err(runtime_error(v.name.line, "Superclass must be a class."@))
                },
                Some(_) => Err(runtime_error(v.name.line, "Superclass must be a class."@)),
            },
        }
    }

    pub open spec fn class_error(&self, declaration: &ClassDeclaration) -> Option<LoxErrView> {
        match self.superclass_of(declaration) {
            Ok(_) => None,
            Err(e) => Some(e),
        }
    }

    /// A class declaration, executed. The class is the newest of the store
    /// and is bound to its name in the current scope. Its methods are the
    /// newest functions, in the order of the declaration; the one named
    /// `init` is an initializer. Their closure is the current scope, or, for
    /// a subclass, a new scope inside it that binds `super` to the superclass.
    pub open spec fn class_done(
        &self,
        before: &Interpreter<'a>,
        rest: Seq<Frame<'a>>,
        declaration: &'a ClassDeclaration,
    ) -> bool {
        let scopes = before.scopes.scopes@.len() as int;
        let functions = before.functions@.len() as int;
        let classes = before.classes@.len() as int;
        let env = before.environment as int;
        let superclass = before.superclass_of(declaration)->Ok_0;
        let closure = if superclass is Some {
            scopes as usize
        } else {
            before.environment
        };
        let value = Object::Class(classes as usize);
        &&& match superclass {
            Some(c) => {
                &&& self.scopes.scopes@.len() == scopes + 1
                &&& forall|j: int|
                    0 <= j < scopes && j != env ==> self.scopes.scopes@[j]
                        == before.scopes.scopes@[j]
                &&& self.scopes.scopes@[env].enclosing == before.scopes.scopes@[env].enclosing
                &&& self.scopes.scopes@[env].values@ == before.scopes.scopes@[env].values@.insert(
                    declaration.name.lexeme@,
                    value,
                )
                &&& self.scopes.scopes@[scopes].enclosing == Some(before.environment)
                &&& self.scopes.scopes@[scopes].values@ == Map::<Seq<char>, Object>::empty().insert(
                    "super"@,
                    Object::Class(c),
                )
            },
            None => rebound(
                before.scopes.scopes@,
                self.scopes.scopes@,
                env,
                declaration.name.lexeme@,
                value,
            ),
        }
        &&& self.functions@.len() == functions + declaration.methods@.len()
        &&& forall|k: int| 0 <= k < functions ==> self.functions@[k] == before.functions@[k]
        &&& forall|k: int|
            0 <= k < declaration.methods@.len() ==> #[trigger] self.functions@[functions + k] == (
            LoxFunction {
                declaration: &declaration.methods@[k],
                closure,
                is_initializer: declaration.methods@[k].name.lexeme@ == "init"@,
            })
        &&& self.classes@.len() == classes + 1
        &&& forall|k: int| 0 <= k < classes ==> self.classes@[k] == before.classes@[k]
        &&& self.classes@[classes].name@ == declaration.name.lexeme@
        &&& self.classes@[classes].superclass == superclass
        &&& self.classes@[classes].methods@ == method_table(
            declaration.methods@,
            functions as nat,
        )
        &&& self.instances@ == before.instances@
        &&& self.globals == before.globals
        &&& self.had_runtime_error == before.had_runtime_error
        &&& self.environment == before.environment
        &&& self.control is Completed
        &&& self.frames@ == rest
    }

    fn find_superclass(&self, class_declaration: &ClassDeclaration) -> (r: Result<
        Option<usize>,
        LoxErr,
    >)
        requires
            self.wf(),
        ensures
            match self.superclass_of(class_declaration) {
                Ok(c) => r == Ok::<Option<usize>, LoxErr>(c),
                Err(e) => r is Err && r->Err_0@ == e,
            },
    {
        match &class_declaration.superclass {
            Some(exist_superclass) => {
                let superclass_obj = self.look_up_variable(exist_superclass)?;
                match superclass_obj {
                    Object::Class(c) => {
                        if c < self.classes.len() {
                            Ok(Some(c))
                        } else {
                            Err(runtime(exist_superclass.name.line, "Superclass must be a class."))
                        }
                    },
                    _ => Err(runtime(exist_superclass.name.line, "Superclass must be a class.")),
                }
            },
            None => Ok(None),
        }
    }

    /// Makes the functions of the methods of a class, with the closure
    /// `closure`, and the table from their names to their handles.
    fn make_methods(&mut self, methods: &'a Vec<FunctionDeclaration>, closure: usize) -> (table:
        StringHashMap<usize>)
        requires
            old(self).wf(),
            closure < old(self).scopes.scopes@.len(),
        ensures
            final(self).wf(),
            final(self).scopes.scopes@ == old(self).scopes.scopes@,
            final(self).classes@ == old(self).classes@,
            final(self).instances@ == old(self).instances@,
            final(self).globals == old(self).globals,
            final(self).had_runtime_error == old(self).had_runtime_error,
            final(self).environment == old(self).environment,
            final(self).control == old(self).control,
            final(self).frames@ == old(self).frames@,
            final(self).functions@.len() == old(self).functions@.len() + methods@.len(),
            forall|k: int|
                0 <= k < old(self).functions@.len() ==> final(self).functions@[k] == old(
                    self,
                ).functions@[k],
            forall|k: int|
                0 <= k < methods@.len() ==> #[trigger] final(self).functions@[old(
                    self,
                ).functions@.len() + k] == (LoxFunction {
                    declaration: &methods@[k],
                    closure,
                    is_initializer: methods@[k].name.lexeme@ == "init"@,
                }),
            table@ == method_table(methods@, old(self).functions@.len() as nat),
    {
        let mut table: StringHashMap<usize> = StringHashMap::new();
        let base = self.functions.len();
        let mut i: usize = 0;
        assert(methods@.subrange(0, 0) =~= Seq::empty());
        while i < methods.len()
            invariant
                i <= methods@.len(),
                self.wf(),
                closure < self.scopes.scopes@.len(),
                base == old(self).functions@.len(),
                self.scopes.scopes@ == old(self).scopes.scopes@,
                self.classes@ == old(self).classes@,
                self.instances@ == old(self).instances@,
                self.globals == old(self).globals,
                self.had_runtime_error == old(self).had_runtime_error,
                self.environment == old(self).environment,
                self.control == old(self).control,
                self.frames@ == old(self).frames@,
                self.functions@.len() == base + i,
                forall|k: int| 0 <= k < base ==> self.functions@[k] == old(self).functions@[k],
                forall|k: int|
                    0 <= k < i ==> #[trigger] self.functions@[base + k] == (LoxFunction {
                        declaration: &methods@[k],
                        closure,
                        is_initializer: methods@[k].name.lexeme@ == "init"@,
                    }),
                table@ == method_table(methods@.subrange(0, i as int), base as nat),
            decreases methods@.len() - i,
        {
            let method_decl = &methods[i];
            let is_init = method_decl.name.lexeme == String::from_str("init");
            let id = self.functions.len();
            self.functions.push(LoxFunction::new(method_decl, closure, is_init));
            table.insert(method_decl.name.lexeme.clone(), id);
            assert(methods@.subrange(0, i + 1).drop_last() =~= methods@.subrange(0, i as int));
            i = i + 1;
        }
        assert(methods@.subrange(0, i as int) =~= methods@);
        table
    }

    fn visit_class_declaration_stmt(&mut self, class_declaration: &'a ClassDeclaration) -> (r:
        Result<(), LoxErr>)
        requires
            old(self).wf(),
        ensures
            final(self).wf(),
            match old(self).class_error(class_declaration) {
                Some(e) => r is Err && r->Err_0@ == e && final(self).untouched(old(self)),
                None => r is Ok && final(self).class_done(
                    old(self),
                    old(self).frames@,
                    class_declaration,
                ),
            },
    {
        let superclass = self.find_superclass(class_declaration)?;
        self.scopes.define(self.environment, class_declaration.name.lexeme.as_str(), Object::Nil);
        let closure = match superclass {
            Some(c) => {
                let env = self.scopes.nested(self.environment);
                self.scopes.define(env, "super", Object::Class(c));
                env
            },
            None => self.environment,
        };
        let methods = self.make_methods(&class_declaration.methods, closure);
        proof {
            assert(self.functions.len() == old(self).functions@.len()
                + class_declaration.methods@.len());
            lemma_method_table_range(class_declaration.methods@, old(self).functions@.len());
        }
        let id = self.classes.len();
        self.classes.push(LoxClass::new(class_declaration.name.lexeme.clone(), superclass, methods));
        self.scopes.define(
            self.environment,
            class_declaration.name.lexeme.as_str(),
            Object::Class(id),
        );
        self.control = Control::Completed;
        proof {
            let env = old(self).environment as int;
            let name = class_declaration.name.lexeme@;
            assert(self.scopes.scopes@[env].values@ =~= old(self).scopes.scopes@[env].values@.insert(
                name,
                Object::Class(id),
            ));
        }
        Ok(())
    }

    /// What executing `stmt` fails with, if it fails.
    pub open spec fn execute_error(&self, stmt: &Stmt) -> Option<LoxErrView> {
        match stmt {
            Stmt::ClassDeclaration { class_declaration } => self.class_error(class_declaration),
            _ => None,
        }
    }

    /// The first step of executing `stmt`. A declaration of a function, of a
    /// class or of a variable without initializer is done at once; a block is
    /// entered; a `return` without value begins to unwind; every other
    /// statement leaves a frame and turns to its expression.
    pub open spec fn execute_done(&self, before: &Interpreter<'a>, stmt: &'a Stmt) -> bool {
        let frames = before.frames@;
        match stmt {
            Stmt::Block { statements } => self.block_done(before, frames, statements),
            Stmt::ClassDeclaration { class_declaration } => self.class_done(
                before,
                frames,
                class_declaration,
            ),
            Stmt::Expression { expression } => self.went(
                before,
                Control::Evaluate(expression),
                frames.push(Frame::Discard),
            ),
            Stmt::FunctionDeclaration { function_declaration } => self.function_done(
                before,
                frames,
                function_declaration,
            ),
            Stmt::If { condition, then_branch, else_branch } => self.went(
                before,
                Control::Evaluate(condition),
                frames.push(
                    Frame::Branch {
                        then_branch: &**then_branch,
                        else_branch: match else_branch {
                            Some(other) => Some(&**other),
                            None => None,
                        },
                    },
                ),
            ),
            Stmt::While { condition, body } => self.went(
                before,
                Control::Evaluate(condition),
                frames.push(Frame::While { condition, body: &**body }),
            ),
            Stmt::Print { expression } => self.went(
                before,
                Control::Evaluate(expression),
                frames.push(Frame::Print),
            ),
            Stmt::Return { keyword, value } => match value {
                Some(e) => self.went(before, Control::Evaluate(e), frames.push(Frame::ReturnValue)),
                None => self.went(before, Control::Returning(Object::Nil), frames),
            },
            Stmt::Var { name, initializer } => match initializer {
                Some(e) => self.went(
                    before,
                    Control::Evaluate(e),
                    frames.push(Frame::Define { name }),
                ),
                None => self.var_done(before, frames, name, Object::Nil),
            },
        }
    }

    /// Begins the execution of a statement. Where that fails, nothing of the
    /// machine has changed.
    pub fn execute(&mut self, stmt: &'a Stmt) -> (r: Result<(), LoxErr>)
        requires
            old(self).wf(),
        ensures
            final(self).wf(),
            match old(self).execute_error(stmt) {
                Some(e) => r is Err && r->Err_0@ == e && final(self).untouched(old(self)),
                None => r is Ok && final(self).execute_done(old(self), stmt),
            },
    {
        match stmt {
            Stmt::Block { statements } => {
                self.visit_block_stmt(statements);
            },
            Stmt::ClassDeclaration { class_declaration } => {
                return self.visit_class_declaration_stmt(class_declaration);
            },
            Stmt::Expression { expression } => {
                self.push(Frame::Discard);
                self.control = Control::Evaluate(expression);
            },
            Stmt::FunctionDeclaration { function_declaration } => {
                self.visit_function_declaration_stmt(function_declaration);
            },
            Stmt::If { condition, then_branch, else_branch } => {
                let other: Option<&'a Stmt> = match else_branch {
                    Some(exist_else_branch) => Some(&**exist_else_branch),
                    None => None,
                };
                self.push(Frame::Branch { then_branch: &**then_branch, else_branch: other });
                self.control = Control::Evaluate(condition);
            },
            Stmt::While { condition, body } => {
                self.push(Frame::While { condition, body: &**body });
                self.control = Control::Evaluate(condition);
            },
            Stmt::Print { expression } => {
                self.push(Frame::Print);
                self.control = Control::Evaluate(expression);
            },
            Stmt::Return { keyword, value } => {
                match value {
                    Some(expr) => {
                        self.push(Frame::ReturnValue);
                        self.control = Control::Evaluate(expr);
                    },
                    None => {
                        self.control = Control::Returning(Object::Nil);
                    },
                }
            },
            Stmt::Var { name, initializer } => {
                match initializer {
                    Some(expr) => {
                        self.push(Frame::Define { name });
                        self.control = Control::Evaluate(expr);
                    },
                    None => {
                        self.visit_var_stmt(name, Object::Nil);
                    },
                }
            },
        }
        Ok(())
    }

    /// What handing `value` to the frame on top fails with, if it fails.
    pub open spec fn resume_error(&self, value: Object) -> Option<LoxErrView> {
        if self.frames@.len() == 0 {
            None
        } else {
            match self.frames@.last() {
                Frame::Assign { expr } => self.assign_error(expr),
                Frame::Unary { expr } => Self::unary_error(expr, value),
                Frame::BinaryRight { expr, left } => Self::binary_error(expr, left, value),
                Frame::Callee { expr } => self.collect_error(expr, value, Seq::empty()),
                Frame::Argument { expr, callee, arguments } => self.collect_error(
                    expr,
                    callee,
                    arguments@.push(value),
                ),
                Frame::GetObject { expr } => self.get_error(expr, value),
                Frame::SetObject { expr } => self.set_error(expr, value),
                _ => None,
            }
        }
    }

    /// A value has arrived: the frame on top is taken off and says what is
    /// done with the value. A frame that waits for no value is dropped.
    /// Without a frame the machine comes to rest.
    pub open spec fn resume_done(
        &self,
        before: &Interpreter<'a>,
        value: Object,
        action: ActionView,
    ) -> bool {
        if before.frames@.len() == 0 {
            self.went(before, Control::Idle, before.frames@) && action == ActionView::Finished
        } else {
            let rest = before.frames@.drop_last();
            match before.frames@.last() {
                Frame::Discard => self.went(before, Control::Completed, rest) && action
                    == ActionView::Continue,
                Frame::Print => self.print_done(before, rest, value, action),
                Frame::Define { name } => self.var_done(before, rest, name, value) && action
                    == ActionView::Continue,
                Frame::Branch { then_branch, else_branch } => self.if_done(
                    before,
                    rest,
                    then_branch,
                    else_branch,
                    value,
                ) && action == ActionView::Continue,
                Frame::While { condition, body } => self.while_done(
                    before,
                    rest,
                    condition,
                    body,
                    value,
                ) && action == ActionView::Continue,
                Frame::ReturnValue => self.went(before, Control::Returning(value), rest) && action
                    == ActionView::Continue,
                Frame::Assign { expr } => self.assign_done(before, rest, expr, value) && action
                    == ActionView::Continue,
                Frame::Unary { expr } => self.unary_done(before, rest, expr, value) && action
                    == ActionView::Continue,
                Frame::BinaryLeft { expr } => self.went(
                    before,
                    Control::Evaluate(&*expr.right),
                    rest.push(Frame::BinaryRight { expr, left: value }),
                ) && action == ActionView::Continue,
                Frame::BinaryRight { expr, left } => self.binary_done(
                    before,
                    rest,
                    expr,
                    left,
                    value,
                    action,
                ),
                Frame::Logical { expr } => self.logical_done(before, rest, expr, value) && action
                    == ActionView::Continue,
                Frame::Callee { expr } => self.collect_done(
                    before,
                    rest,
                    expr,
                    value,
                    Seq::empty(),
                    action,
                ),
                Frame::Argument { expr, callee, arguments } => self.collect_done(
                    before,
                    rest,
                    expr,
                    callee,
                    arguments@.push(value),
                    action,
                ),
                Frame::GetObject { expr } => self.get_done(before, rest, expr, value) && action
                    == ActionView::Continue,
                Frame::SetObject { expr } => self.set_object_done(before, rest, expr, value)
                    && action == ActionView::Continue,
                Frame::SetValue { expr, instance } => self.set_done(
                    before,
                    rest,
                    expr,
                    instance,
                    value,
                ) && action == ActionView::Continue,
                Frame::Construct { instance } => self.went(
                    before,
                    Control::Value(Object::Instance(instance)),
                    rest,
                ) && action == ActionView::Continue,
                _ => self.went(before, Control::Value(value), rest) && action
                    == ActionView::Continue,
            }
        }
    }

    fn resume(&mut self, value: Object) -> (r: Result<Action, LoxErr>)
        requires
            old(self).wf(),
        ensures
            final(self).wf(),
            match old(self).resume_error(value) {
                Some(e) => r is Err && r->Err_0@ == e && final(self).popped(old(self)),
                None => r is Ok && final(self).resume_done(old(self), value, r->Ok_0@),
            },
    {
        let frame = match self.frames.pop() {
            None => {
                self.control = Control::Idle;
                return Ok(Action::Finished);
            },
            Some(frame) => frame,
        };
        assert(frame == old(self).frames@.last());
        assert(self.frames@ == old(self).frames@.drop_last());
        assert(frame_ok(
            old(self).frames@[old(self).frames@.len() - 1],
            self.scopes.scopes@.len(),
            self.functions@.len(),
            self.instances@.len(),
        ));
        match frame {
            Frame::Discard => {
                self.control = Control::Completed;
                Ok(Action::Continue)
            },
            Frame::Print => Ok(self.visit_print_stmt(value)),
            Frame::Define { name } => {
                self.visit_var_stmt(name, value);
                Ok(Action::Continue)
            },
            Frame::Branch { then_branch, else_branch } => {
                self.visit_if_stmt(then_branch, else_branch, value);
                Ok(Action::Continue)
            },
            Frame::While { condition, body } => {
                self.visit_while_stmt(condition, body, value);
                Ok(Action::Continue)
            },
            Frame::ReturnValue => {
                self.control = Control::Returning(value);
                Ok(Action::Continue)
            },
            Frame::Assign { expr } => {
                self.visit_assign_expr(expr, value)?;
                Ok(Action::Continue)
            },
            Frame::Unary { expr } => {
                self.visit_unary_expr(expr, value)?;
                Ok(Action::Continue)
            },
            Frame::BinaryLeft { expr } => {
                self.push(Frame::BinaryRight { expr, left: value });
                self.control = Control::Evaluate(&*expr.right);
                Ok(Action::Continue)
            },
            Frame::BinaryRight { expr, left } => self.visit_binary_expr(expr, left, value),
            Frame::Logical { expr } => {
                self.visit_logical_expr(expr, value);
                Ok(Action::Continue)
            },
            Frame::Callee { expr } => self.collect(expr, value, Vec::new()),
            Frame::Argument { expr, callee, arguments } => {
                let mut arguments = arguments;
                arguments.push(value);
                self.collect(expr, callee, arguments)
            },
            Frame::GetObject { expr } => {
                self.visit_get_expr(expr, value)?;
                Ok(Action::Continue)
            },
            Frame::SetObject { expr } => {
                self.visit_set_object(expr, value)?;
                Ok(Action::Continue)
            },
            Frame::SetValue { expr, instance } => {
                self.visit_set_expr(expr, instance, value);
                Ok(Action::Continue)
            },
            Frame::Construct { instance } => {
                self.control = Control::Value(Object::Instance(instance));
                Ok(Action::Continue)
            },
            _ => {
                self.control = Control::Value(value);
                Ok(Action::Continue)
            },
        }
    }

    /// What a step fails with, if it fails.
    pub open spec fn step_error(&self, event: Event) -> Option<LoxErrView> {
        match self.control {
            Control::Evaluate(e) => self.evaluate_error(e),
            Control::Execute(s) => self.execute_error(s),
            Control::Value(v) => self.resume_error(v),
            Control::Awaiting(p) => Self::receive_error(p, event),
            _ => None,
        }
    }

    /// A step that does not fail: what the machine does is decided by its
    /// control.
    pub open spec fn step_done(
        &self,
        before: &Interpreter<'a>,
        event: Event,
        action: ActionView,
    ) -> bool {
        match before.control {
            Control::Idle => self.went(before, Control::Idle, before.frames@) && action
                == ActionView::Finished,
            Control::Evaluate(e) => self.evaluate_done(before, e) && action
                == ActionView::Continue,
            Control::Execute(s) => self.execute_done(before, s) && action == ActionView::Continue,
            Control::Value(v) => self.resume_done(before, v, action),
            Control::Completed => self.advance_done(before, action),
            Control::Returning(v) => self.unwind_done(before, v, action),
            Control::Awaiting(p) => self.receive_done(before, p, event, action),
        }
    }

    /// The machine after a failure: the store is as it was, the failure is
    /// recorded, nothing waits, and the globals are the current scope.
    pub open spec fn failed(&self, before: &Interpreter<'a>) -> bool {
        &&& self.scopes.scopes@ == before.scopes.scopes@
        &&& self.functions@ == before.functions@
        &&& self.classes@ == before.classes@
        &&& self.instances@ == before.instances@
        &&& self.globals == before.globals
        &&& self.had_runtime_error
        &&& self.environment == before.globals
        &&& self.control is Idle
        &&& self.frames@.len() == 0
    }

    /// One step of the machine from `before` with `event` to `self` and `action`.
    pub open spec fn stepped(
        &self,
        before: &Interpreter<'a>,
        event: Event,
        action: ActionView,
    ) -> bool {
        match before.step_error(event) {
            Some(e) => self.failed(before) && action == ActionView::Failed(e),
            None => self.step_done(before, event, action),
        }
    }

    /// Does one step. `event` is what the action of the step before asked
    /// for; with nothing asked for, it is [`Event::Resume`]. The result says
    /// what the host is to do before the next step. A step that fails ends
    /// the program.
    pub fn step(&mut self, event: Event) -> (r: Action)
        requires
            old(self).wf(),
        ensures
            final(self).wf(),
            final(self).stepped(old(self), event, r@),
    {
        let control = self.control.clone();
        let r = match control {
            Control::Idle => Ok(Action::Finished),
            Control::Evaluate(expr) => match self.evaluate(expr) {
                Ok(_) => Ok(Action::Continue),
                Err(e) => Err(e),
            },
            Control::Execute(stmt) => match self.execute(stmt) {
                Ok(_) => Ok(Action::Continue),
                Err(e) => Err(e),
            },
            Control::Value(value) => self.resume(value),
            Control::Completed => Ok(self.advance()),
            Control::Returning(value) => Ok(self.unwind(value)),
            Control::Awaiting(pending) => self.receive(pending, event),
        };
        match r {
            Ok(action) => action,
            Err(lox_err) => {
                self.had_runtime_error = true;
                self.environment = self.globals;
                self.control = Control::Idle;
                self.frames.clear();
                Action::Failed(lox_err)
            },
        }
    }

    /// Loads a program: its statements wait to be run among the globals, in
    /// place of whatever the machine was doing.
    pub fn interpret(&mut self, statements: &'a Vec<Stmt>)
        requires
            old(self).wf(),
        ensures
            final(self).wf(),
            final(self).same_store(old(self)),
            final(self).environment == old(self).globals,
            final(self).control is Completed,
            final(self).frames@ == seq![Frame::Program { statements, next: 0 }],
    {
        self.frames.clear();
        self.frames.push(Frame::Program { statements, next: 0 });
        self.environment = self.globals;
        self.control = Control::Completed;
        assert(self.frames@ =~= seq![Frame::Program { statements, next: 0 }]);
    }

    /// `to` comes from `from` by `n` steps, none of which asked anything of
    /// the host.
    pub open spec fn continued(from: Interpreter<'a>, to: Interpreter<'a>, n: nat) -> bool
        decreases n,
    {
        if n == 0 {
            to == from
        } else {
            exists|mid: Interpreter<'a>|
                Self::continued(from, mid, (n - 1) as nat) && #[trigger] to.stepped(
                    &mid,
                    Event::Resume,
                    ActionView::Continue,
                )
        }
    }

    /// `to` comes from `from` by `n` steps, of which only the last, whose
    /// action is `action`, may have asked something of the host.
    pub open spec fn ran(
        from: Interpreter<'a>,
        to: Interpreter<'a>,
        n: nat,
        action: ActionView,
    ) -> bool {
        n >= 1 && exists|last: Interpreter<'a>|
            Self::continued(from, last, (n - 1) as nat) && #[trigger] to.stepped(
                &last,
                Event::Resume,
                action,
            )
    }

    /// Steps the machine until a step asks something of the host or ends the
    /// program, but at most `budget` times, and returns the action of the
    /// last step.
    pub fn run(&mut self, budget: usize) -> (r: Action)
        requires
            old(self).wf(),
            budget >= 1,
        ensures
            final(self).wf(),
            exists|n: nat|
                1 <= n <= budget && #[trigger] Self::ran(*old(self), *final(self), n, r@) && (r@
                    == ActionView::Continue ==> n == budget),
    {
        let ghost mut last = *self;
        let ghost mut n: nat = 1;
        let mut action = self.step(Event::Resume);
        let mut used: usize = 1;
        loop
            invariant
                self.wf(),
                1 <= used <= budget,
                n == used,
                Self::continued(*old(self), last, (n - 1) as nat),
                self.stepped(&last, Event::Resume, action@),
            decreases budget - used,
        {
            match action {
                Action::Continue => {},
                _ => {
                    assert(Self::ran(*old(self), *self, n, action@));
                    return action;
                },
            }
            if used >= budget {
                assert(Self::ran(*old(self), *self, n, action@));
                return action;
            }
            proof {
                last = *self;
                n = n + 1;
            }
            action = self.step(Event::Resume);
            used = used + 1;
        }
    }
}

/// The table of the methods of a class whose functions are the handles from
/// `base` on, in the order of the declaration: each name with the handle of
/// its method, the last of that name if there are several.
pub open spec fn method_table(methods: Seq<FunctionDeclaration>, base: nat) -> Map<Seq<char>, usize>
    decreases methods.len(),
{
    if methods.len() == 0 {
        Map::empty()
    } else {
        method_table(methods.drop_last(), base).insert(
            methods.last().name.lexeme@,
            (base + methods.len() - 1) as usize,
        )
    }
}

/// The handles in the table of a class are those of its own methods.
pub proof fn lemma_method_table_range(methods: Seq<FunctionDeclaration>, base: nat)
    requires
        base + methods.len() <= usize::MAX,
    ensures
        forall|name: Seq<char>| #[trigger]
            method_table(methods, base).contains_key(name) ==> base <= method_table(
                methods,
                base,
            )[name] < base + methods.len(),
    decreases methods.len(),
{
    if methods.len() > 0 {
        let earlier = method_table(methods.drop_last(), base);
        let last = methods.last().name.lexeme@;
        lemma_method_table_range(methods.drop_last(), base);
        assert forall|name: Seq<char>| #[trigger]
            method_table(methods, base).contains_key(name) implies base <= method_table(
            methods,
            base,
        )[name] < base + methods.len() by {
            if name != last {
                assert(earlier.contains_key(name));
            }
        }
    }
}

} // verus!
