//! Instances of classes.
use vstd::prelude::*;
use vstd::hash_map::StringHashMap;
use vstd::string::StringExecFns;
use crate::err::LoxErr;
use crate::interpreter::{runtime_error, Interpreter};
use crate::lox_class::{lemma_method_is_a_function, method_of, LoxClass};
use crate::lox_function::LoxFunction;
use crate::object::Object;
use crate::token::Token;

verus! {

/// An instance: its class and its fields.
pub struct LoxInstance {
    pub class: usize,
    pub fields: StringHashMap<Object>,
}

impl LoxInstance {
    /// An instance of the class `class` without fields.
    pub fn new(class: usize) -> (r: LoxInstance)
        ensures
            r.class == class,
            r.fields@ == Map::<Seq<char>, Object>::empty(),
    {
        LoxInstance { class: class, fields: StringHashMap::new() }
    }

    /// Stores `value` in the field `name`, in place of what the field held.
    pub fn set(&mut self, name: &Token, value: Object)
        ensures
            final(self).class == old(self).class,
            final(self).fields@ == old(self).fields@.insert(name.lexeme@, value),
    {
        self.fields.insert(name.lexeme.clone(), value);
    }
}

/// The message for a property that an instance does not have.
pub open spec fn undefined_property(name: Seq<char>) -> Seq<char> {
    "Undefined property '"@ + name + "'."@
}

pub fn undefined_property_error(name: &Token) -> (e: LoxErr)
    ensures
        e@ == runtime_error(name.line, undefined_property(name.lexeme@)),
{
    let mut message = String::from_str("Undefined property '");
    message.append(name.lexeme.as_str());
    message.append("'.");
    LoxErr::Runtime { line: name.line, message }
}

/// What a property read finds.
pub enum Property {
    /// A field with this value.
    Field(Object),
    /// No field, but the method with this handle.
    Method(usize),
    /// Neither.
    Missing,
}

impl LoxInstance {
    /// The property `name` of the instance `instance`: a field before a
    /// method, the method of the instance's class before that of a class
    /// above it.
    pub open spec fn property(interpreter: &Interpreter, instance: usize, name: Seq<char>) -> Property {
        let this = interpreter.instances@[instance as int];
        if this.fields@.contains_key(name) {
            Property::Field(this.fields@[name])
        } else {
            match method_of(interpreter.classes@, this.class as int, name) {
                Some(f) => Property::Method(f),
                None => Property::Missing,
            }
        }
    }

    /// Reads the property `name` of the instance `instance`. A field gives
    /// its value and leaves the store alone; a method is bound to the instance,
    /// and the bound method is the value; anything else is a failure.
    pub fn get<'a>(interpreter: &mut Interpreter<'a>, instance: usize, name: &Token) -> (r: Result<
        Object,
        LoxErr,
    >)
        requires
            old(interpreter).wf(),
            instance < old(interpreter).instances@.len(),
        ensures
            final(interpreter).wf(),
            final(interpreter).control == old(interpreter).control,
            final(interpreter).frames@ == old(interpreter).frames@,
            final(interpreter).environment == old(interpreter).environment,
            match Self::property(old(interpreter), instance, name.lexeme@) {
                Property::Field(v) => r == Ok::<Object, LoxErr>(v) && final(interpreter).same_store(
                    old(interpreter),
                ),
                Property::Method(f) => r == Ok::<Object, LoxErr>(
                    Object::Function(old(interpreter).functions@.len() as usize),
                ) && LoxFunction::bound(final(interpreter), old(interpreter), f, instance),
                Property::Missing => r is Err && r->Err_0@ == runtime_error(
                    name.line,
                    undefined_property(name.lexeme@),
                ) && final(interpreter).same_store(old(interpreter)),
            },
    {
        match interpreter.instances[instance].fields.get(name.lexeme.as_str()) {
            Some(existing_property) => {
                return Ok(existing_property.clone());
            },
            None => {},
        }
        let class = interpreter.instances[instance].class;
        proof {
            lemma_method_is_a_function(
                interpreter.classes@,
                class as int,
                name.lexeme@,
                interpreter.functions@.len(),
            );
        }
        match LoxClass::find_method(&interpreter.classes, class, name.lexeme.as_str()) {
            Some(method) => {
                let bound = LoxFunction::bind(interpreter, method, instance);
                Ok(Object::Function(bound))
            },
            None => Err(undefined_property_error(name)),
        }
    }
}

/// A method read twice from one instance gives two functions, each bound to
/// that instance: where `second` is what [`LoxInstance::get`] makes of
/// `first`, and `third` what it makes of `second`, the two reads find the
/// same method, their values are the two newest functions, and the closure of
/// each is a scope of its own that lies in the method's closure and binds
/// `this`, and nothing else, to the instance. The instances are as they were.
pub proof fn law_method_read_twice<'a>(
    first: &Interpreter<'a>,
    second: &Interpreter<'a>,
    third: &Interpreter<'a>,
    instance: usize,
    name: Seq<char>,
)
    requires
        first.wf(),
        instance < first.instances@.len(),
        match LoxInstance::property(first, instance, name) {
            Property::Method(f) => LoxFunction::bound(second, first, f, instance),
            _ => false,
        },
        match LoxInstance::property(second, instance, name) {
            Property::Method(f) => LoxFunction::bound(third, second, f, instance),
            _ => false,
        },
    ensures
        LoxInstance::property(second, instance, name) == LoxInstance::property(
            first,
            instance,
            name,
        ),
        third.instances@ == first.instances@,
        third.functions@.len() == first.functions@.len() + 2,
        ({
            let method = first.functions@[LoxInstance::property(
                first,
                instance,
                name,
            )->Method_0 as int];
            let one = third.functions@[first.functions@.len() as int];
            let other = third.functions@[first.functions@.len() as int + 1];
            let this = Map::<Seq<char>, Object>::empty().insert("this"@, Object::Instance(instance));
            &&& one.closure != other.closure
            &&& one.declaration == method.declaration
            &&& other.declaration == method.declaration
            &&& third.scopes.scopes@[one.closure as int].enclosing == Some(method.closure)
            &&& third.scopes.scopes@[other.closure as int].enclosing == Some(method.closure)
            &&& third.scopes.scopes@[one.closure as int].values@ == this
            &&& third.scopes.scopes@[other.closure as int].values@ == this
        }),
{
    let f = LoxInstance::property(first, instance, name)->Method_0;
    lemma_method_is_a_function(
        first.classes@,
        first.instances@[instance as int].class as int,
        name,
        first.functions@.len(),
    );
    let n = first.functions@.len() as int;
    let s = first.scopes.scopes@.len() as int;
    assert(first.scopes.scopes.len() == s);
    assert(second.scopes.scopes.len() == s + 1);
    assert(second.functions@[n] == third.functions@[n]);
    assert(second.functions@[f as int] == first.functions@[f as int]);
    assert(third.scopes.scopes@[s] == second.scopes.scopes@[s]);
}

} // verus!
