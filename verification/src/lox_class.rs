//! Classes as values.
use vstd::prelude::*;
use vstd::hash_map::StringHashMap;
use crate::interpreter::{Control, Frame, Interpreter};
use crate::lox_function::{bindings, LoxFunction};
use crate::lox_instance::LoxInstance;
use crate::object::Object;

verus! {

/// A class: its name, its superclass if it has one, and its own methods, each
/// a handle of a function.
pub struct LoxClass {
    pub name: String,
    pub superclass: Option<usize>,
    pub methods: StringHashMap<usize>,
}

/// Every class was made after its superclass.
pub open spec fn classes_ok(classes: Seq<LoxClass>) -> bool {
    forall|c: int|
        0 <= c < classes.len() ==> match (#[trigger] classes[c]).superclass {
            Some(p) => p < c,
            None => true,
        }
}

/// Every method of every class is one of the first `functions` functions.
pub open spec fn methods_ok(classes: Seq<LoxClass>, functions: nat) -> bool {
    forall|c: int, name: Seq<char>|
        0 <= c < classes.len() && #[trigger] classes[c].methods@.contains_key(name)
            ==> classes[c].methods@[name] < functions
}

/// The method `name` of the class `class`: its own, or else that of the
/// nearest class above it that has one.
pub open spec fn method_of(classes: Seq<LoxClass>, class: int, name: Seq<char>) -> Option<usize>
    decreases class,
{
    if !(0 <= class < classes.len()) {
        None
    } else if classes[class].methods@.contains_key(name) {
        Some(classes[class].methods@[name])
    } else {
        match classes[class].superclass {
            Some(p) => if p < class {
                method_of(classes, p as int, name)
            } else {
                None
            },
            None => None,
        }
    }
}

/// A method that is found is a function of the store.
pub proof fn lemma_method_is_a_function(
    classes: Seq<LoxClass>,
    class: int,
    name: Seq<char>,
    functions: nat,
)
    requires
        methods_ok(classes, functions),
    ensures
        match method_of(classes, class, name) {
            Some(f) => f < functions,
            None => true,
        },
    decreases class,
{
    if 0 <= class < classes.len() && !classes[class].methods@.contains_key(name) {
        match classes[class].superclass {
            Some(p) => if p < class {
                lemma_method_is_a_function(classes, p as int, name, functions);
            },
            None => {},
        }
    }
}

impl LoxClass {
    pub fn new(name: String, superclass: Option<usize>, methods: StringHashMap<usize>) -> (r:
        LoxClass)
        ensures
            r.name == name,
            r.superclass == superclass,
            r.methods == methods,
    {
        LoxClass { name: name, superclass: superclass, methods: methods }
    }

    /// Looks a method up in the class `class` of `classes` and then in the
    /// classes above it; the first that has one of that name decides.
    pub fn find_method(classes: &Vec<LoxClass>, class: usize, name: &str) -> (r: Option<usize>)
        requires
            classes_ok(classes@),
        ensures
            r == method_of(classes@, class as int, name@),
    {
        if class >= classes.len() {
            return None;
        }
        let mut at: usize = class;
        loop
            invariant
                classes_ok(classes@),
                at < classes@.len(),
                method_of(classes@, at as int, name@) == method_of(classes@, class as int, name@),
            decreases at,
        {
            match classes[at].methods.get(name) {
                Some(f) => {
                    return Some(*f);
                },
                None => {},
            }
            match classes[at].superclass {
                Some(p) => {
                    at = p;
                },
                None => {
                    return None;
                },
            }
        }
    }
}

impl LoxClass {
    /// The initializer of the class `class`: its method `init`, or that of a
    /// class above it.
    pub open spec fn initializer(interpreter: &Interpreter, class: usize) -> Option<usize> {
        method_of(interpreter.classes@, class as int, "init"@)
    }

    /// The number of arguments that a call of the class takes: those of its
    /// initializer, none if it has no initializer.
    pub open spec fn arity_of(interpreter: &Interpreter, class: usize) -> nat {
        match Self::initializer(interpreter, class) {
            Some(f) => interpreter.functions@[f as int].declaration.params@.len(),
            None => 0,
        }
    }

    fn find_initializer(interpreter: &Interpreter, class: usize) -> (r: Option<usize>)
        requires
            interpreter.wf(),
        ensures
            r == Self::initializer(interpreter, class),
            match r {
                Some(f) => f < interpreter.functions@.len(),
                None => true,
            },
    {
        proof {
            lemma_method_is_a_function(
                interpreter.classes@,
                class as int,
                "init"@,
                interpreter.functions@.len(),
            );
        }
        Self::find_method(&interpreter.classes, class, "init")
    }

    pub fn arity(interpreter: &Interpreter, class: usize) -> (r: usize)
        requires
            interpreter.wf(),
        ensures
            r == Self::arity_of(interpreter, class),
    {
        match Self::find_initializer(interpreter, class) {
            Some(exist_init) => interpreter.functions[exist_init].arity(),
            None => 0,
        }
    }

    /// The store has one more instance, of the class `class` and without
    /// fields.
    pub open spec fn instantiated(after: &Interpreter, before: &Interpreter, class: usize) -> bool {
        let i = before.instances@.len() as int;
        &&& after.instances@.len() == i + 1
        &&& forall|j: int| 0 <= j < i ==> after.instances@[j] == before.instances@[j]
        &&& after.instances@[i].class == class
        &&& after.instances@[i].fields@ == Map::<Seq<char>, Object>::empty()
    }

    /// The machine after the call of the class `class` has begun. There is
    /// one more instance. Where the class has no initializer, the instance is
    /// the value of the call. Where it has one, the initializer was bound to
    /// the instance and its call has begun, under a frame that makes the
    /// instance the value of the whole.
    pub open spec fn called<'a>(
        after: &Interpreter<'a>,
        before: &Interpreter<'a>,
        rest: Seq<Frame<'a>>,
        class: usize,
        arguments: Seq<Object>,
    ) -> bool {
        let i = before.instances@.len() as usize;
        let n = before.scopes.scopes@.len() as int;
        &&& Self::instantiated(after, before, class)
        &&& after.classes@ == before.classes@
        &&& after.globals == before.globals
        &&& after.had_runtime_error == before.had_runtime_error
        &&& match Self::initializer(before, class) {
            None => {
                &&& after.scopes.scopes@ == before.scopes.scopes@
                &&& after.functions@ == before.functions@
                &&& after.environment == before.environment
                &&& after.control == Control::Value(Object::Instance(i))
                &&& after.frames@ == rest
            },
            Some(f) => {
                let method = before.functions@[f as int];
                &&& after.functions@ == before.functions@.push(
                    LoxFunction {
                        declaration: method.declaration,
                        closure: n as usize,
                        is_initializer: method.is_initializer,
                    },
                )
                &&& after.scopes.scopes@.len() == n + 2
                &&& forall|j: int| 0 <= j < n ==> after.scopes.scopes@[j] == before.scopes.scopes@[j]
                &&& after.scopes.scopes@[n].enclosing == Some(method.closure)
                &&& after.scopes.scopes@[n].values@ == Map::<Seq<char>, Object>::empty().insert(
                    "this"@,
                    Object::Instance(i),
                )
                &&& after.scopes.scopes@[n + 1].enclosing == Some(n as usize)
                &&& after.scopes.scopes@[n + 1].values@ == bindings(
                    method.declaration.params@,
                    arguments,
                )
                &&& after.environment == n + 1
                &&& after.control is Completed
                &&& after.frames@ == rest.push(Frame::Construct { instance: i }).push(
                    Frame::Call { function: before.functions@.len() as usize },
                ).push(
                    Frame::Block {
                        statements: &method.declaration.body,
                        next: 0,
                        previous: before.environment,
                    },
                )
            },
        }
    }

    /// Begins the call of a class with as many arguments as its initializer
    /// has parameters.
    pub fn call<'a>(interpreter: &mut Interpreter<'a>, class: usize, arguments: Vec<Object>)
        requires
            old(interpreter).wf(),
            class < old(interpreter).classes@.len(),
            arguments@.len() == Self::arity_of(old(interpreter), class),
        ensures
            final(interpreter).wf(),
            Self::called(
                final(interpreter),
                old(interpreter),
                old(interpreter).frames@,
                class,
                arguments@,
            ),
    {
        let instance = interpreter.instances.len();
        let initializer = Self::find_initializer(interpreter, class);
        interpreter.instances.push(LoxInstance::new(class));
        match initializer {
            Some(exist_init) => {
                let bound = LoxFunction::bind(interpreter, exist_init, instance);
                interpreter.frames.push(Frame::Construct { instance });
                LoxFunction::call(interpreter, bound, arguments);
            },
            None => {
                interpreter.control = Control::Value(Object::Instance(instance));
            },
        }
    }
}

} // verus!
