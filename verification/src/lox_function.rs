//! Functions as values.
use vstd::prelude::*;
use crate::environment::grown;
use crate::interpreter::{Control, Frame, Interpreter};
use crate::object::Object;
use crate::stmt::FunctionDeclaration;
use crate::token::Token;

verus! {

/// A function value: its declaration, the scope it was declared in, and
/// whether it is the initializer of a class.
pub struct LoxFunction<'a> {
    pub declaration: &'a FunctionDeclaration,
    pub closure: usize,
    pub is_initializer: bool,
}

impl<'a> LoxFunction<'a> {
    pub fn new(fun_decl: &'a FunctionDeclaration, closure: usize, is_initializer: bool) -> (r:
        LoxFunction<'a>)
        ensures
            r == (LoxFunction { declaration: fun_decl, closure, is_initializer }),
    {
        LoxFunction { declaration: fun_decl, closure: closure, is_initializer: is_initializer }
    }

    /// The number of parameters.
    pub fn arity(&self) -> (r: usize)
        ensures
            r == self.declaration.params@.len(),
    {
        self.declaration.params.len()
    }
}

/// What the parameters of a call stand for: each the argument at its place,
/// a later parameter of the same name before an earlier one.
pub open spec fn bindings(params: Seq<Token>, arguments: Seq<Object>) -> Map<Seq<char>, Object>
    decreases params.len(),
{
    if params.len() == 0 || arguments.len() == 0 {
        Map::empty()
    } else {
        bindings(params.drop_last(), arguments.drop_last()).insert(
            params.last().lexeme@,
            arguments.last(),
        )
    }
}

impl<'a> LoxFunction<'a> {
    /// The store after the function `function` was bound to the instance
    /// `instance`: one more scope, which lies in the function's closure and
    /// binds `this` to the instance, and one more function, which differs from
    /// `function` in having that scope as its closure.
    pub open spec fn bound(
        after: &Interpreter<'a>,
        before: &Interpreter<'a>,
        function: usize,
        instance: usize,
    ) -> bool {
        &&& grown(
            before.scopes.scopes@,
            after.scopes.scopes@,
            Some(before.functions@[function as int].closure),
            Map::<Seq<char>, Object>::empty().insert("this"@, Object::Instance(instance)),
        )
        &&& after.functions@ == before.functions@.push(
            LoxFunction {
                declaration: before.functions@[function as int].declaration,
                closure: before.scopes.scopes@.len() as usize,
                is_initializer: before.functions@[function as int].is_initializer,
            },
        )
        &&& after.classes@ == before.classes@
        &&& after.instances@ == before.instances@
        &&& after.globals == before.globals
        &&& after.had_runtime_error == before.had_runtime_error
        &&& after.environment == before.environment
    }

    /// Binds a method to an instance and returns the handle of the bound
    /// method.
    pub fn bind(interpreter: &mut Interpreter<'a>, function: usize, instance: usize) -> (r: usize)
        requires
            old(interpreter).wf(),
            function < old(interpreter).functions@.len(),
        ensures
            final(interpreter).wf(),
            r == old(interpreter).functions@.len(),
            Self::bound(final(interpreter), old(interpreter), function, instance),
            final(interpreter).control == old(interpreter).control,
            final(interpreter).frames@ == old(interpreter).frames@,
    {
        let declaration = interpreter.functions[function].declaration;
        let closure = interpreter.functions[function].closure;
        let is_initializer = interpreter.functions[function].is_initializer;
        let env = interpreter.scopes.nested(closure);
        interpreter.scopes.define(env, "this", Object::Instance(instance));
        let r = interpreter.functions.len();
        interpreter.functions.push(LoxFunction::new(declaration, env, is_initializer));
        r
    }

    /// The machine after the call of the function `function` has begun: a new
    /// scope inside the function's closure binds the parameters to the
    /// arguments and is the current one; the body waits to be run in it,
    /// under a frame that a `return` ends.
    pub open spec fn called(
        after: &Interpreter<'a>,
        before: &Interpreter<'a>,
        rest: Seq<Frame<'a>>,
        function: usize,
        arguments: Seq<Object>,
    ) -> bool {
        &&& grown(
            before.scopes.scopes@,
            after.scopes.scopes@,
            Some(before.functions@[function as int].closure),
            bindings(before.functions@[function as int].declaration.params@, arguments),
        )
        &&& after.environment == before.scopes.scopes@.len()
        &&& after.functions@ == before.functions@
        &&& after.classes@ == before.classes@
        &&& after.instances@ == before.instances@
        &&& after.globals == before.globals
        &&& after.had_runtime_error == before.had_runtime_error
        &&& after.control is Completed
        &&& after.frames@ == rest.push(Frame::Call { function }).push(
            Frame::Block {
                statements: &before.functions@[function as int].declaration.body,
                next: 0,
                previous: before.environment,
            },
        )
    }

    /// Begins the call of a function with as many arguments as it has
    /// parameters.
    pub fn call(interpreter: &mut Interpreter<'a>, function: usize, arguments: Vec<Object>)
        requires
            old(interpreter).wf(),
            function < old(interpreter).functions@.len(),
            arguments@.len() == old(interpreter).functions@[function as int].declaration.params@.len(),
        ensures
            final(interpreter).wf(),
            Self::called(
                final(interpreter),
                old(interpreter),
                old(interpreter).frames@,
                function,
                arguments@,
            ),
    {
        let declaration = interpreter.functions[function].declaration;
        let closure = interpreter.functions[function].closure;
        let env = interpreter.scopes.nested(closure);
        let ghost opened = interpreter.scopes.scopes@;
        let mut i: usize = 0;
        assert(declaration.params@.subrange(0, 0) =~= Seq::empty());
        while i < declaration.params.len()
            invariant
                i <= declaration.params@.len(),
                arguments@.len() == declaration.params@.len(),
                interpreter.scopes.wf(),
                env == opened.len() - 1,
                interpreter.scopes.scopes@.len() == opened.len(),
                forall|j: int| 0 <= j < env ==> interpreter.scopes.scopes@[j] == opened[j],
                interpreter.scopes.scopes@[env as int].enclosing == Some(closure),
                interpreter.scopes.scopes@[env as int].values@ == bindings(
                    declaration.params@.subrange(0, i as int),
                    arguments@.subrange(0, i as int),
                ),
                interpreter.functions == old(interpreter).functions,
                interpreter.classes == old(interpreter).classes,
                interpreter.instances == old(interpreter).instances,
                interpreter.frames == old(interpreter).frames,
                interpreter.environment == old(interpreter).environment,
                interpreter.globals == old(interpreter).globals,
                interpreter.had_runtime_error == old(interpreter).had_runtime_error,
            decreases declaration.params@.len() - i,
        {
            assert(declaration.params@.subrange(0, i + 1).drop_last()
                =~= declaration.params@.subrange(0, i as int));
            assert(arguments@.subrange(0, i + 1).drop_last() =~= arguments@.subrange(0, i as int));
            interpreter.scopes.define(
                env,
                declaration.params[i].lexeme.as_str(),
                arguments[i].clone(),
            );
            i = i + 1;
        }
        assert(declaration.params@.subrange(0, i as int) =~= declaration.params@);
        assert(arguments@.subrange(0, i as int) =~= arguments@);
        let previous = interpreter.environment;
        interpreter.frames.push(Frame::Call { function });
        interpreter.frames.push(Frame::Block { statements: &declaration.body, next: 0, previous });
        interpreter.environment = env;
        interpreter.control = Control::Completed;
    }
}

/// A method bound twice to one instance gives two functions, and the closure
/// of each binds `this` to that instance.
pub proof fn law_bound_twice<'a>(
    first: &Interpreter<'a>,
    second: &Interpreter<'a>,
    third: &Interpreter<'a>,
    method: usize,
    instance: usize,
)
    requires
        method < first.functions@.len(),
        LoxFunction::bound(second, first, method, instance),
        LoxFunction::bound(third, second, method, instance),
    ensures
        third.functions@.len() == first.functions@.len() + 2,
        ({
            let one = third.functions@[first.functions@.len() as int];
            let other = third.functions@[first.functions@.len() as int + 1];
            &&& one.closure != other.closure
            &&& one.declaration == first.functions@[method as int].declaration
            &&& other.declaration == first.functions@[method as int].declaration
            &&& third.scopes.scopes@[one.closure as int].values@["this"@] == Object::Instance(
                instance,
            )
            &&& third.scopes.scopes@[other.closure as int].values@["this"@] == Object::Instance(
                instance,
            )
            &&& crate::environment::lookup_at(third.scopes.scopes@, one.closure as int, 0, "this"@)
                == Some(Object::Instance(instance))
            &&& crate::environment::lookup_at(
                third.scopes.scopes@,
                other.closure as int,
                0,
                "this"@,
            ) == Some(Object::Instance(instance))
        }),
{
    let n = first.functions@.len() as int;
    let s = first.scopes.scopes@.len() as int;
    assert(first.scopes.scopes.len() == s);
    assert(second.scopes.scopes.len() == s + 1);
    assert(second.functions@[n] == third.functions@[n]);
    assert(second.functions@[method as int] == first.functions@[method as int]);
    assert(third.functions@[n].closure == s);
    assert(third.functions@[n + 1].closure == s + 1);
    assert(third.scopes.scopes@[s] == second.scopes.scopes@[s]);
    assert(second.scopes.scopes@[s].values@.contains_key("this"@));
    assert(third.scopes.scopes@[s + 1].values@.contains_key("this"@));
}

} // verus!
