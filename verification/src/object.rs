//! Runtime values.
use vstd::prelude::*;
use vstd::std_specs::cmp::PartialEqSpecImpl;
use crate::number::{equal, number_eq};

verus! {

/// A function implemented by the host, known by its name.
#[derive(Debug)]
pub struct NativeFunction {
    pub name: String,
}

/// A Lox value. Functions, classes and instances are handles into the
/// interpreter's store; a number is the bit pattern of a binary64.
#[derive(Debug)]
pub enum Object {
    Nil,
    Bool(bool),
    Class(usize),
    Instance(usize),
    String(String),
    Number(u64),
    Function(usize),
    NativeFunction(NativeFunction),
}

/// The mathematical value of an [`Object`]: text is a sequence of characters.
pub enum ObjectView {
    Nil,
    Bool(bool),
    Class(usize),
    Instance(usize),
    String(Seq<char>),
    Number(u64),
    Function(usize),
    NativeFunction(Seq<char>),
}

impl View for NativeFunction {
    type V = Seq<char>;

    open spec fn view(&self) -> Seq<char> {
        self.name@
    }
}

impl View for Object {
    type V = ObjectView;

    open spec fn view(&self) -> ObjectView {
        match self {
            Object::Nil => ObjectView::Nil,
            Object::Bool(b) => ObjectView::Bool(*b),
            Object::Class(c) => ObjectView::Class(*c),
            Object::Instance(i) => ObjectView::Instance(*i),
            Object::String(s) => ObjectView::String(s@),
            Object::Number(n) => ObjectView::Number(*n),
            Object::Function(f) => ObjectView::Function(*f),
            Object::NativeFunction(n) => ObjectView::NativeFunction(n@),
        }
    }
}

/// Only `nil` and `false` are falsy.
pub open spec fn truthy(v: ObjectView) -> bool {
    match v {
        ObjectView::Nil => false,
        ObjectView::Bool(b) => b,
        _ => true,
    }
}

/// Lox equality: values of different kinds are unequal; booleans, numbers and
/// text compare by value; functions, classes and instances by handle.
pub open spec fn values_equal(a: ObjectView, b: ObjectView) -> bool {
    match (a, b) {
        (ObjectView::Nil, ObjectView::Nil) => true,
        (ObjectView::Bool(x), ObjectView::Bool(y)) => x == y,
        (ObjectView::Class(x), ObjectView::Class(y)) => x == y,
        (ObjectView::Instance(x), ObjectView::Instance(y)) => x == y,
        (ObjectView::String(x), ObjectView::String(y)) => x == y,
        (ObjectView::Number(x), ObjectView::Number(y)) => number_eq(x, y),
        (ObjectView::Function(x), ObjectView::Function(y)) => x == y,
        (ObjectView::NativeFunction(x), ObjectView::NativeFunction(y)) => x == y,
        _ => false,
    }
}

impl Clone for NativeFunction {
    fn clone(&self) -> (r: Self)
        ensures
            r == *self,
    {
        NativeFunction { name: self.name.clone() }
    }
}

impl NativeFunction {
    /// The number of arguments that the native function `clock` takes.
    pub fn arity(&self) -> (r: usize)
        requires
            self.name@ == "clock"@,
        ensures
            r == 0,
    {
        0
    }
}

impl Clone for Object {
    fn clone(&self) -> (r: Self)
        ensures
            r == *self,
    {
        match self {
            Object::Nil => Object::Nil,
            Object::Bool(b) => Object::Bool(*b),
            Object::Class(c) => Object::Class(*c),
            Object::Instance(i) => Object::Instance(*i),
            Object::String(s) => Object::String(s.clone()),
            Object::Number(n) => Object::Number(*n),
            Object::Function(f) => Object::Function(*f),
            Object::NativeFunction(n) => Object::NativeFunction(n.clone()),
        }
    }
}

impl Default for Object {
    fn default() -> (r: Self)
        ensures
            r == Object::Nil,
    {
        Object::Nil
    }
}

impl PartialEq for Object {
    fn eq(&self, other: &Self) -> (r: bool) {
        match (self, other) {
            (Object::Nil, Object::Nil) => true,
            (Object::Bool(x), Object::Bool(y)) => *x == *y,
            (Object::Class(x), Object::Class(y)) => *x == *y,
            (Object::Instance(x), Object::Instance(y)) => *x == *y,
            (Object::String(x), Object::String(y)) => *x == *y,
            (Object::Number(x), Object::Number(y)) => equal(*x, *y),
            (Object::Function(x), Object::Function(y)) => *x == *y,
            (Object::NativeFunction(x), Object::NativeFunction(y)) => x.name == y.name,
            _ => false,
        }
    }
}

impl PartialEqSpecImpl for Object {
    open spec fn obeys_eq_spec() -> bool {
        true
    }

    open spec fn eq_spec(&self, other: &Self) -> bool {
        values_equal(self@, other@)
    }
}

impl Object {
    /// Does the value count as true in a condition?
    pub fn is_truthy(&self) -> (r: bool)
        ensures
            r == truthy(self@),
    {
        match self {
            Object::Nil => false,
            Object::Bool(v) => *v,
            _ => true,
        }
    }
}

} // verus!
