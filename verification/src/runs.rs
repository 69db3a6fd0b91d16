//! What holds of the runs of the machine: of the step that ends a call, of
//! the steps that a `return` takes to reach its call, of a call from its
//! begin to its value, of the evaluation of expressions that change nothing,
//! whether they have a value or fail, and of values that are printed as they
//! were spelled.
//!
//! A run is a sequence of states, each of which comes from the one before it
//! by a step. What the host answers is part of the run; where a law speaks of
//! arithmetic, it takes the host to answer as a function does.
use vstd::prelude::*;
use crate::environment::{lookup_at, undefined_variable};
use crate::err::LoxErrView;
use crate::expr::Expr;
use crate::stmt::Stmt;
use crate::interpreter::{
    runtime_error, ActionView, Control, Event, Frame, Interpreter, Pending,
};
use crate::lexicon::{word_kind, word_literal};
use crate::lox_function::LoxFunction;
use crate::object::{Object, ObjectView};
use crate::operation::{binary, decided_by_left, unary, ComputedView};
use crate::token_type::TokenType;

verus! {

/// A function whose body comes to its end without a `return` gives nil.
pub proof fn law_body_without_return_gives_nil<'a>(
    before: &Interpreter<'a>,
    after: &Interpreter<'a>,
    event: Event,
    action: ActionView,
    function: usize,
)
    requires
        after.stepped(before, event, action),
        before.control is Completed,
        before.frames@.len() > 0,
        before.frames@.last() == (Frame::Call { function }),
        !before.functions@[function as int].is_initializer,
    ensures
        after.control == Control::Value(Object::Nil),
        after.frames@ == before.frames@.drop_last(),
        after.same_store(before),
        action == ActionView::Continue,
{
}

/// An initializer gives the instance that it was bound to, whether its body
/// comes to its end or a `return` ends it.
pub proof fn law_initializer_gives_instance<'a>(
    before: &Interpreter<'a>,
    after: &Interpreter<'a>,
    event: Event,
    action: ActionView,
    function: usize,
    instance: usize,
)
    requires
        after.stepped(before, event, action),
        before.control is Completed || before.control is Returning,
        before.frames@.len() > 0,
        before.frames@.last() == (Frame::Call { function }),
        before.functions@[function as int].is_initializer,
        lookup_at(
            before.scopes.scopes@,
            before.functions@[function as int].closure as int,
            0,
            "this"@,
        ) == Some(Object::Instance(instance)),
    ensures
        after.control == Control::Value(Object::Instance(instance)),
        after.frames@ == before.frames@.drop_last(),
        after.same_store(before),
{
}

/// A function that is no initializer and is ended by `return` gives the
/// value returned.
pub proof fn law_return_gives_value<'a>(
    before: &Interpreter<'a>,
    after: &Interpreter<'a>,
    event: Event,
    action: ActionView,
    function: usize,
    value: Object,
)
    requires
        after.stepped(before, event, action),
        before.control == Control::Returning(value),
        before.frames@.len() > 0,
        before.frames@.last() == (Frame::Call { function }),
        !before.functions@[function as int].is_initializer,
    ensures
        after.control == Control::Value(value),
        after.frames@ == before.frames@.drop_last(),
        after.same_store(before),
{
}

/// Each state of `trace` but the first comes from the one before it by a
/// step with the event and the action at its place.
pub open spec fn is_run<'a>(
    trace: Seq<Interpreter<'a>>,
    events: Seq<Event>,
    actions: Seq<ActionView>,
) -> bool {
    &&& trace.len() >= 1
    &&& events.len() == trace.len() - 1
    &&& actions.len() == trace.len() - 1
    &&& forall|j: int| 0 <= j < trace.len() - 1 ==> linked(trace, events, actions, j)
}

/// The state at `j + 1` comes from that at `j` by one step.
#[verifier::opaque]
pub open spec fn linked<'a>(
    trace: Seq<Interpreter<'a>>,
    events: Seq<Event>,
    actions: Seq<ActionView>,
    j: int,
) -> bool {
    trace[j + 1].stepped(&trace[j], events[j], actions[j])
}

/// Is no frame of `frames` that of a call?
pub open spec fn no_call(frames: Seq<Frame>) -> bool {
    forall|k: int| 0 <= k < frames.len() ==> !((#[trigger] frames[k]) is Call)
}

/// A `return` is caught by the innermost call, and by nothing before it: from
/// a state that unwinds with the frames `above` over the frame of a call,
/// none of which is that of a call, the machine takes one step for each of
/// them, unwinding all the while with the store untouched; the step after
/// them ends the call with its value, and what waited below the call waits
/// on.
pub proof fn law_return_is_caught_by_its_call<'a>(
    trace: Seq<Interpreter<'a>>,
    events: Seq<Event>,
    actions: Seq<ActionView>,
    value: Object,
    function: usize,
    rest: Seq<Frame<'a>>,
    above: Seq<Frame<'a>>,
)
    requires
        is_run(trace, events, actions),
        trace.len() == above.len() + 2,
        trace[0].control == Control::Returning(value),
        trace[0].frames@ == rest.push(Frame::Call { function }) + above,
        no_call(above),
    ensures
        forall|j: int|
            0 <= j <= above.len() ==> {
                &&& (#[trigger] trace[j]).control == Control::Returning(value)
                &&& trace[j].frames@ == rest.push(Frame::Call { function }) + above.subrange(
                    0,
                    above.len() - j,
                )
                &&& trace[j].same_store(&trace[0])
            },
        trace.last().control == Control::Value(trace[0].call_value(function, value)),
        trace.last().frames@ == rest,
        trace.last().same_store(&trace[0]),
    decreases above.len(),
{
    reveal(linked);
    let below = rest.push(Frame::Call { function });
    assert(above.subrange(0, above.len() as int) =~= above);
    if above.len() == 0 {
        assert(linked(trace, events, actions, 0));
        assert(trace[0].frames@ =~= below);
        assert(below.drop_last() =~= rest);
        assert(below.last() == (Frame::Call { function }));
    } else {
        assert(linked(trace, events, actions, 0));
        let frames = trace[0].frames@;
        assert(frames.last() == above.last());
        assert(!(above[above.len() - 1] is Call));
        assert(frames.drop_last() =~= below + above.drop_last());
        let later = trace.subrange(1, trace.len() as int);
        let later_events = events.subrange(1, events.len() as int);
        let later_actions = actions.subrange(1, actions.len() as int);
        assert forall|j: int| 0 <= j < later.len() - 1 implies linked(
            later,
            later_events,
            later_actions,
            j,
        ) by {
            assert(linked(trace, events, actions, j + 1));
        }
        law_return_is_caught_by_its_call(
            later,
            later_events,
            later_actions,
            value,
            function,
            rest,
            above.drop_last(),
        );
        assert(later.last() == trace.last());
        assert forall|j: int| 0 <= j <= above.len() implies {
            &&& (#[trigger] trace[j]).control == Control::Returning(value)
            &&& trace[j].frames@ == below + above.subrange(0, above.len() - j)
            &&& trace[j].same_store(&trace[0])
        } by {
            if j > 0 {
                assert(trace[j] == later[j - 1]);
                assert(above.drop_last().subrange(0, above.len() - 1 - (j - 1)) =~= above.subrange(
                    0,
                    above.len() - j,
                ));
            }
        }
    }
}

/// A step that does not fail leaves the frames below the top one as they
/// were: it takes the top frame off, or puts frames on, or both.
pub proof fn lemma_step_touches_the_top<'a>(
    before: &Interpreter<'a>,
    after: &Interpreter<'a>,
    event: Event,
    action: ActionView,
)
    requires
        after.stepped(before, event, action),
        !(action is Failed),
        before.frames@.len() > 0,
    ensures
        after.frames@.len() >= before.frames@.len() - 1,
        after.frames@.subrange(0, before.frames@.len() - 1) == before.frames@.drop_last(),
{
    let frames = before.frames@;
    let rest = frames.drop_last();
    let n = frames.len() - 1;
    assert(frames.subrange(0, n) =~= rest);
    assert forall|a: Frame<'a>| #![auto] frames.push(a).subrange(0, n) == rest by {
        assert(frames.push(a).subrange(0, n) =~= rest);
    }
    assert forall|a: Frame<'a>| #![auto] rest.push(a).subrange(0, n) == rest by {
        assert(rest.push(a).subrange(0, n) =~= rest);
    }
    assert forall|a: Frame<'a>, b: Frame<'a>| #![auto] rest.push(a).push(b).subrange(0, n)
        == rest by {
        assert(rest.push(a).push(b).subrange(0, n) =~= rest);
    }
    assert forall|a: Frame<'a>, b: Frame<'a>, c: Frame<'a>| #![auto]
        rest.push(a).push(b).push(c).subrange(0, n) == rest by {
        assert(rest.push(a).push(b).push(c).subrange(0, n) =~= rest);
    }
    assert forall|a: Frame<'a>, b: Frame<'a>| #![auto] frames.push(a).push(b).subrange(0, n)
        == rest by {
        assert(frames.push(a).push(b).subrange(0, n) =~= rest);
    }
    assert forall|a: Frame<'a>, b: Frame<'a>, c: Frame<'a>| #![auto]
        frames.push(a).push(b).push(c).subrange(0, n) == rest by {
        assert(frames.push(a).push(b).push(c).subrange(0, n) =~= rest);
    }
    match before.control {
        Control::Value(v) => {
            match frames.last() {
                Frame::Callee { expr } => {
                    if after.frames@.len() == rest.len() + 1 {
                        assert(after.frames@.subrange(0, n) =~= after.frames@.drop_last());
                    }
                },
                Frame::Argument { expr, callee, arguments } => {
                    if after.frames@.len() == rest.len() + 1 {
                        assert(after.frames@.subrange(0, n) =~= after.frames@.drop_last());
                    }
                },
                _ => {},
            }
        },
        _ => {},
    }
}

/// Right after the call of a function has begun, its frame lies over what
/// waited before, with the body over it: the state is one from which
/// [`law_call_ends_with_a_value`] speaks.
pub proof fn law_begun_call_waits<'a>(
    before: &Interpreter<'a>,
    after: &Interpreter<'a>,
    rest: Seq<Frame<'a>>,
    function: usize,
    arguments: Seq<Object>,
)
    requires
        LoxFunction::called(after, before, rest, function, arguments),
    ensures
        after.frames@.len() > rest.len(),
        after.frames@.subrange(0, rest.len() as int + 1) == rest.push(Frame::Call { function }),
{
    assert(after.frames@.subrange(0, rest.len() as int + 1) =~= rest.push(
        Frame::Call { function },
    ));
}

/// The frame of a call leaves the stack only with a value: whatever step
/// takes it off, the machine then hands over a value, and what waited below
/// the call waits on. A `return` does not pass it.
pub proof fn law_call_frame_leaves_with_a_value<'a>(
    before: &Interpreter<'a>,
    after: &Interpreter<'a>,
    event: Event,
    action: ActionView,
    function: usize,
)
    requires
        after.stepped(before, event, action),
        !(action is Failed),
        before.frames@.len() > 0,
        before.frames@.last() == (Frame::Call { function }),
    ensures
        after.frames@.len() >= before.frames@.len() ==> after.frames@.subrange(
            0,
            before.frames@.len() as int,
        ) == before.frames@,
        after.frames@.len() < before.frames@.len() ==> after.frames@ == before.frames@.drop_last()
            && after.control is Value,
        before.control is Returning ==> after.frames@ == before.frames@.drop_last()
            && after.control is Value,
{
    let frames = before.frames@;
    let n = frames.len() as int;
    assert(frames.subrange(0, n) =~= frames);
    assert forall|a: Frame<'a>| #![auto] frames.push(a).subrange(0, n) == frames by {
        assert(frames.push(a).subrange(0, n) =~= frames);
    }
    assert forall|a: Frame<'a>, b: Frame<'a>| #![auto] frames.push(a).push(b).subrange(0, n)
        == frames by {
        assert(frames.push(a).push(b).subrange(0, n) =~= frames);
    }
    assert forall|a: Frame<'a>, b: Frame<'a>, c: Frame<'a>| #![auto]
        frames.push(a).push(b).push(c).subrange(0, n) == frames by {
        assert(frames.push(a).push(b).push(c).subrange(0, n) =~= frames);
    }
}

/// A call ends with a value. In a run without failure, from a state in which
/// the frame of a call lies over the frames `rest`, as long as more than
/// `rest` waits the frame of the call is still in its place; and at the first
/// state in which no more than `rest` waits, exactly `rest` waits and the
/// machine hands over a value. The step before it took the frame of the call
/// off: nothing that unwinds has passed it.
pub proof fn law_call_ends_with_a_value<'a>(
    trace: Seq<Interpreter<'a>>,
    events: Seq<Event>,
    actions: Seq<ActionView>,
    rest: Seq<Frame<'a>>,
    function: usize,
    k: int,
)
    requires
        is_run(trace, events, actions),
        0 < k < trace.len(),
        trace[0].frames@.len() > rest.len(),
        trace[0].frames@.subrange(0, rest.len() as int + 1) == rest.push(Frame::Call { function }),
        forall|j: int| 0 <= j < k ==> (#[trigger] trace[j]).frames@.len() > rest.len(),
        forall|j: int| 0 <= j < k ==> !((#[trigger] actions[j]) is Failed),
        trace[k].frames@.len() <= rest.len(),
    ensures
        trace[k - 1].frames@ == rest.push(Frame::Call { function }),
        trace[k].frames@ == rest,
        trace[k].control is Value,
{
    reveal(linked);
    let below = rest.push(Frame::Call { function });
    let m = rest.len() as int + 1;
    assert forall|j: int| 0 <= j < k implies (#[trigger] trace[j]).frames@.subrange(0, m)
        == below by {
        lemma_call_frame_stays(trace, events, actions, rest, function, k, j);
    }
    assert(linked(trace, events, actions, k - 1));
    let before = &trace[k - 1];
    lemma_step_touches_the_top(before, &trace[k], events[k - 1], actions[k - 1]);
    assert(before.frames@.len() == m);
    assert(before.frames@ =~= before.frames@.subrange(0, m));
    assert(below.last() == (Frame::Call { function }));
    law_call_frame_leaves_with_a_value(before, &trace[k], events[k - 1], actions[k - 1], function);
    assert(below.drop_last() =~= rest);
}

/// A call of a function that is no initializer, whose body has run to its
/// end, gives nil: in a run as in [`law_call_ends_with_a_value`], if the last
/// state in which the call waits is done with a statement, the value handed
/// over is nil.
pub proof fn law_call_that_runs_to_its_end_gives_nil<'a>(
    trace: Seq<Interpreter<'a>>,
    events: Seq<Event>,
    actions: Seq<ActionView>,
    rest: Seq<Frame<'a>>,
    function: usize,
    k: int,
)
    requires
        is_run(trace, events, actions),
        0 < k < trace.len(),
        trace[0].frames@.len() > rest.len(),
        trace[0].frames@.subrange(0, rest.len() as int + 1) == rest.push(Frame::Call { function }),
        forall|j: int| 0 <= j < k ==> (#[trigger] trace[j]).frames@.len() > rest.len(),
        forall|j: int| 0 <= j < k ==> !((#[trigger] actions[j]) is Failed),
        trace[k].frames@.len() <= rest.len(),
        trace[k - 1].control is Completed,
        !trace[k - 1].functions@[function as int].is_initializer,
    ensures
        trace[k].frames@ == rest,
        trace[k].control == Control::Value(Object::Nil),
{
    reveal(linked);
    law_call_ends_with_a_value(trace, events, actions, rest, function, k);
    assert(linked(trace, events, actions, k - 1));
    assert(rest.push(Frame::Call { function }).last() == (Frame::Call { function }));
    law_body_without_return_gives_nil(
        &trace[k - 1],
        &trace[k],
        events[k - 1],
        actions[k - 1],
        function,
    );
}

/// A call of an initializer gives the instance that the initializer was bound
/// to, whether its body has run to its end or a `return` has ended it: in a
/// run as in [`law_call_ends_with_a_value`], if the last state in which the
/// call waits is done with a statement or unwinds, the value handed over is
/// the instance that `this` stands for in the initializer's closure.
pub proof fn law_initializer_call_gives_instance<'a>(
    trace: Seq<Interpreter<'a>>,
    events: Seq<Event>,
    actions: Seq<ActionView>,
    rest: Seq<Frame<'a>>,
    function: usize,
    instance: usize,
    k: int,
)
    requires
        is_run(trace, events, actions),
        0 < k < trace.len(),
        trace[0].frames@.len() > rest.len(),
        trace[0].frames@.subrange(0, rest.len() as int + 1) == rest.push(Frame::Call { function }),
        forall|j: int| 0 <= j < k ==> (#[trigger] trace[j]).frames@.len() > rest.len(),
        forall|j: int| 0 <= j < k ==> !((#[trigger] actions[j]) is Failed),
        trace[k].frames@.len() <= rest.len(),
        trace[k - 1].control is Completed || trace[k - 1].control is Returning,
        trace[k - 1].functions@[function as int].is_initializer,
        lookup_at(
            trace[k - 1].scopes.scopes@,
            trace[k - 1].functions@[function as int].closure as int,
            0,
            "this"@,
        ) == Some(Object::Instance(instance)),
    ensures
        trace[k].frames@ == rest,
        trace[k].control == Control::Value(Object::Instance(instance)),
{
    reveal(linked);
    law_call_ends_with_a_value(trace, events, actions, rest, function, k);
    assert(linked(trace, events, actions, k - 1));
    assert(rest.push(Frame::Call { function }).last() == (Frame::Call { function }));
    law_initializer_gives_instance(
        &trace[k - 1],
        &trace[k],
        events[k - 1],
        actions[k - 1],
        function,
        instance,
    );
}

/// Is the machine about to bind or to assign the name `this`: by a
/// declaration of a variable, a function or a class of that name, or by an
/// assignment to it? No program that the parser has read from the tokens of
/// the scanner does so, where `this` is a keyword and no name.
pub open spec fn rebinds_this(st: &Interpreter) -> bool {
    match st.control {
        Control::Execute(s) => match s {
            Stmt::Var { name, initializer } => initializer is None && name.lexeme@ == "this"@,
            Stmt::FunctionDeclaration { function_declaration } => function_declaration.name.lexeme@
                == "this"@,
            Stmt::ClassDeclaration { class_declaration } => class_declaration.name.lexeme@
                == "this"@,
            _ => false,
        },
        Control::Value(_) => st.frames@.len() > 0 && match st.frames@.last() {
            Frame::Define { name } => name.lexeme@ == "this"@,
            Frame::Assign { expr } => expr.name.lexeme@ == "this"@,
            _ => false,
        },
        _ => false,
    }
}

/// What `this` stands for in the scope `s` itself.
pub open spec fn this_of(st: &Interpreter, s: int) -> Option<Object> {
    lookup_at(st.scopes.scopes@, s, 0, "this"@)
}

/// A step that neither binds nor assigns the name `this` leaves what `this`
/// stands for in every scope as it was, and the functions as they were.
pub proof fn lemma_step_keeps_this<'a>(
    before: &Interpreter<'a>,
    after: &Interpreter<'a>,
    event: Event,
    action: ActionView,
    s: int,
    f: int,
)
    requires
        after.stepped(before, event, action),
        !rebinds_this(before),
        0 <= s < before.scopes.scopes@.len(),
        0 <= f < before.functions@.len(),
    ensures
        s < after.scopes.scopes@.len(),
        f < after.functions@.len(),
        this_of(after, s) == this_of(before, s),
        after.functions@[f] == before.functions@[f],
{
    reveal_strlit("this");
    reveal_strlit("super");
    assert("this"@ != "super"@) by {
        assert("this"@.len() == 4);
        assert("super"@.len() == 5);
    }
}

/// A call of an initializer gives the instance that the initializer was bound
/// to when the call began: in a run as in [`law_call_ends_with_a_value`] in
/// which nothing binds or assigns the name `this`, if `this` stands for an
/// instance in the initializer's closure at the begin, that instance is the
/// value of the call, whether the body has run to its end or a `return` has
/// ended it.
pub proof fn law_initializer_call_gives_bound_instance<'a>(
    trace: Seq<Interpreter<'a>>,
    events: Seq<Event>,
    actions: Seq<ActionView>,
    rest: Seq<Frame<'a>>,
    function: usize,
    instance: usize,
    k: int,
)
    requires
        is_run(trace, events, actions),
        0 < k < trace.len(),
        trace[0].frames@.len() > rest.len(),
        trace[0].frames@.subrange(0, rest.len() as int + 1) == rest.push(Frame::Call { function }),
        forall|j: int| 0 <= j < k ==> (#[trigger] trace[j]).frames@.len() > rest.len(),
        forall|j: int| 0 <= j < k ==> !((#[trigger] actions[j]) is Failed),
        forall|j: int| 0 <= j < k ==> !rebinds_this(&#[trigger] trace[j]),
        trace[k].frames@.len() <= rest.len(),
        trace[k - 1].control is Completed || trace[k - 1].control is Returning,
        function < trace[0].functions@.len(),
        trace[0].functions@[function as int].is_initializer,
        trace[0].functions@[function as int].closure < trace[0].scopes.scopes@.len(),
        this_of(&trace[0], trace[0].functions@[function as int].closure as int) == Some(
            Object::Instance(instance),
        ),
    ensures
        trace[k].frames@ == rest,
        trace[k].control == Control::Value(Object::Instance(instance)),
{
    lemma_this_stays(trace, events, actions, function, k, k - 1);
    law_initializer_call_gives_instance(trace, events, actions, rest, function, instance, k);
}

/// While nothing binds or assigns the name `this`, a function and what
/// `this` stands for in its closure stay as they were.
proof fn lemma_this_stays<'a>(
    trace: Seq<Interpreter<'a>>,
    events: Seq<Event>,
    actions: Seq<ActionView>,
    function: usize,
    k: int,
    j: int,
)
    requires
        is_run(trace, events, actions),
        0 < k < trace.len(),
        0 <= j < k,
        forall|i: int| 0 <= i < k ==> !rebinds_this(&#[trigger] trace[i]),
        function < trace[0].functions@.len(),
        trace[0].functions@[function as int].closure < trace[0].scopes.scopes@.len(),
    ensures
        function < trace[j].functions@.len(),
        trace[j].functions@[function as int] == trace[0].functions@[function as int],
        trace[0].functions@[function as int].closure < trace[j].scopes.scopes@.len(),
        this_of(&trace[j], trace[0].functions@[function as int].closure as int) == this_of(
            &trace[0],
            trace[0].functions@[function as int].closure as int,
        ),
    decreases j,
{
    reveal(linked);
    if j > 0 {
        lemma_this_stays(trace, events, actions, function, k, j - 1);
        assert(linked(trace, events, actions, j - 1));
        lemma_step_keeps_this(
            &trace[j - 1],
            &trace[j],
            events[j - 1],
            actions[j - 1],
            trace[0].functions@[function as int].closure as int,
            function as int,
        );
    }
}

/// As long as more waits than lay below a call, the frame of the call is in
/// its place.
proof fn lemma_call_frame_stays<'a>(
    trace: Seq<Interpreter<'a>>,
    events: Seq<Event>,
    actions: Seq<ActionView>,
    rest: Seq<Frame<'a>>,
    function: usize,
    k: int,
    j: int,
)
    requires
        is_run(trace, events, actions),
        0 < k < trace.len(),
        0 <= j < k,
        trace[0].frames@.len() > rest.len(),
        trace[0].frames@.subrange(0, rest.len() as int + 1) == rest.push(Frame::Call { function }),
        forall|i: int| 0 <= i < k ==> (#[trigger] trace[i]).frames@.len() > rest.len(),
        forall|i: int| 0 <= i < k ==> !((#[trigger] actions[i]) is Failed),
    ensures
        trace[j].frames@.subrange(0, rest.len() as int + 1) == rest.push(Frame::Call { function }),
    decreases j,
{
    reveal(linked);
    if j > 0 {
        lemma_call_frame_stays(trace, events, actions, rest, function, k, j - 1);
        assert(linked(trace, events, actions, j - 1));
        let before = &trace[j - 1];
        let after = &trace[j];
        let m = rest.len() as int + 1;
        let below = rest.push(Frame::Call { function });
        lemma_step_touches_the_top(before, after, events[j - 1], actions[j - 1]);
        if before.frames@.len() == m {
            assert(before.frames@ =~= before.frames@.subrange(0, m));
            assert(below.last() == (Frame::Call { function }));
            law_call_frame_leaves_with_a_value(
                before,
                after,
                events[j - 1],
                actions[j - 1],
                function,
            );
        } else {
            let n = before.frames@.len() - 1;
            assert(after.frames@.subrange(0, m) =~= after.frames@.subrange(0, n).subrange(0, m));
            assert(before.frames@.drop_last().subrange(0, m) =~= before.frames@.subrange(0, m));
        }
    }
}

/// The host of a run, as far as the evaluation of expressions asks it: the
/// number that it answers for an operation on two numbers, and the text that
/// it answers for a number.
pub struct Host {
    pub arithmetic: spec_fn(TokenType, u64, u64) -> u64,
    pub spelling: spec_fn(u64) -> Seq<char>,
}

/// Does the event answer what the state awaits as `host` answers it? A state
/// that awaits no arithmetic and no spelling for a failed division is
/// answered by anything.
pub open spec fn answers(st: &Interpreter, event: Event, host: Host) -> bool {
    match st.control {
        Control::Awaiting(Pending::Arithmetic { operator, left, right }) => event == Event::Number(
            (host.arithmetic)(operator, left, right),
        ),
        Control::Awaiting(Pending::DivisionText { left, line }) => match event {
            Event::Text(t) => t@ == (host.spelling)(left),
            _ => false,
        },
        _ => true,
    }
}

/// The event at `j` answers the state at `j` as `host` answers it.
pub open spec fn answered_at<'a>(
    trace: Seq<Interpreter<'a>>,
    events: Seq<Event>,
    host: Host,
    j: int,
) -> bool {
    answers(&trace[j], events[j], host)
}

/// Throughout the run the host answers as `host` does.
pub open spec fn answered<'a>(trace: Seq<Interpreter<'a>>, events: Seq<Event>, host: Host) -> bool {
    forall|j: int| 0 <= j < events.len() ==> answered_at(trace, events, host, j)
}

/// An expression whose evaluation changes nothing: literals, variables and
/// `this`, and groupings, unary and binary operations, `and` and `or` of
/// such expressions. It holds no call, no assignment and no property.
pub open spec fn is_quiet(e: Expr) -> bool
    decreases e,
{
    match e {
        Expr::Literal(_) => true,
        Expr::Variable(_) => true,
        Expr::This(_) => true,
        Expr::Grouping(g) => is_quiet(*g.expression),
        Expr::Unary(u) => is_quiet(*u.right),
        Expr::Logical(l) => is_quiet(*l.left) && is_quiet(*l.right),
        Expr::Binary(b) => is_quiet(*b.left) && is_quiet(*b.right),
        _ => false,
    }
}

/// What an operator has computed, with the answers of the host put in: a
/// value, or a failure on the line `line`.
pub open spec fn outcome(c: ComputedView, line: usize, host: Host) -> Result<
    ObjectView,
    LoxErrView,
> {
    match c {
        ComputedView::Value(v) => Ok(v),
        ComputedView::Arithmetic { operator, left, right } => Ok(
            ObjectView::Number((host.arithmetic)(operator, left, right)),
        ),
        ComputedView::DivideByZero { left } => Err(
            runtime_error(line, Interpreter::divided_by_zero((host.spelling)(left))),
        ),
        ComputedView::Failure(m) => Err(runtime_error(line, m)),
    }
}

/// The number of steps in which the host is asked about what an operator has
/// computed.
pub open spec fn asked(c: ComputedView) -> nat {
    match c {
        ComputedView::Arithmetic { .. } => 1,
        ComputedView::DivideByZero { .. } => 1,
        _ => 0,
    }
}

/// What a binary operator computes: [`binary`], kept folded in the proofs.
#[verifier::opaque]
pub open spec fn binary_result(
    operator: TokenType,
    left: ObjectView,
    right: ObjectView,
) -> ComputedView {
    binary(operator, left, right)
}

/// What a unary operator computes: [`unary`], kept folded in the proofs.
#[verifier::opaque]
pub open spec fn unary_result(operator: TokenType, right: ObjectView) -> ComputedView {
    unary(operator, right)
}

/// What a name stands for in the state `st`, or the failure to find it.
#[verifier::opaque]
pub open spec fn variable_value(
    st: &Interpreter,
    name: crate::token::Token,
    distance: Option<usize>,
) -> Result<ObjectView, LoxErrView> {
    match st.looked_up(name.lexeme@, distance) {
        Some(v) => Ok(v@),
        None => Err(runtime_error(name.line, undefined_variable(name.lexeme@))),
    }
}

/// The value of a quiet expression in the state `st` with the host `host`,
/// or the failure that its evaluation ends with.
pub open spec fn value_of(st: &Interpreter, e: Expr, host: Host) -> Result<ObjectView, LoxErrView>
    decreases e,
{
    match e {
        Expr::Literal(l) => Ok(l.literal@),
        Expr::Variable(v) => variable_value(st, v.name, v.distance),
        Expr::This(t) => variable_value(st, t.keyword, t.distance),
        Expr::Grouping(g) => value_of(st, *g.expression, host),
        Expr::Unary(u) => match value_of(st, *u.right, host) {
            Ok(r) => outcome(unary_result(u.operator.token_type, r), u.operator.line, host),
            Err(e) => Err(e),
        },
        Expr::Logical(l) => match value_of(st, *l.left, host) {
            Ok(left) => if decided_by_left(l.operator.token_type, left) {
                Ok(left)
            } else {
                value_of(st, *l.right, host)
            },
            Err(e) => Err(e),
        },
        Expr::Binary(b) => match value_of(st, *b.left, host) {
            Ok(left) => match value_of(st, *b.right, host) {
                Ok(right) => outcome(
                    binary_result(b.operator.token_type, left, right),
                    b.operator.line,
                    host,
                ),
                Err(e) => Err(e),
            },
            Err(e) => Err(e),
        },
        _ => Ok(ObjectView::Nil),
    }
}

/// The number of steps that the evaluation of a quiet expression takes.
pub open spec fn steps_of(st: &Interpreter, e: Expr, host: Host) -> nat
    decreases e,
{
    match e {
        Expr::Grouping(g) => 1 + steps_of(st, *g.expression, host),
        Expr::Unary(u) => 2 + steps_of(st, *u.right, host),
        Expr::Logical(l) => 2 + steps_of(st, *l.left, host) + match value_of(st, *l.left, host) {
            Ok(left) => if decided_by_left(l.operator.token_type, left) {
                0
            } else {
                steps_of(st, *l.right, host)
            },
            Err(_) => 0,
        },
        Expr::Binary(b) => 3 + steps_of(st, *b.left, host) + steps_of(st, *b.right, host) + match (
            value_of(st, *b.left, host),
            value_of(st, *b.right, host),
        ) {
            (Ok(left), Ok(right)) => asked(binary_result(b.operator.token_type, left, right)),
            _ => 0,
        },
        _ => 1,
    }
}

/// The number of steps up to and with the step that fails, in the evaluation
/// of a quiet expression that has no value.
pub open spec fn steps_to_failure(st: &Interpreter, e: Expr, host: Host) -> nat
    decreases e,
{
    match e {
        Expr::Grouping(g) => 1 + steps_to_failure(st, *g.expression, host),
        Expr::Unary(u) => match value_of(st, *u.right, host) {
            Ok(_) => 2 + steps_of(st, *u.right, host),
            Err(_) => 1 + steps_to_failure(st, *u.right, host),
        },
        Expr::Logical(l) => match value_of(st, *l.left, host) {
            Ok(_) => 2 + steps_of(st, *l.left, host) + steps_to_failure(st, *l.right, host),
            Err(_) => 1 + steps_to_failure(st, *l.left, host),
        },
        Expr::Binary(b) => match value_of(st, *b.left, host) {
            Ok(left) => match value_of(st, *b.right, host) {
                Ok(right) => 3 + steps_of(st, *b.left, host) + steps_of(st, *b.right, host)
                    + asked(binary_result(b.operator.token_type, left, right)),
                Err(_) => 2 + steps_of(st, *b.left, host) + steps_to_failure(st, *b.right, host),
            },
            Err(_) => 1 + steps_to_failure(st, *b.left, host),
        },
        _ => 1,
    }
}

/// The value of a quiet expression, and the steps that it takes, depend on
/// the store, the current scope and the host alone.
pub proof fn lemma_value_steady<'a>(a: &Interpreter<'a>, b: &Interpreter<'a>, e: Expr, host: Host)
    requires
        a.same_store(b),
        a.environment == b.environment,
    ensures
        value_of(a, e, host) == value_of(b, e, host),
        steps_of(a, e, host) == steps_of(b, e, host),
        steps_to_failure(a, e, host) == steps_to_failure(b, e, host),
    decreases e,
{
    reveal(variable_value);
    match e {
        Expr::Grouping(g) => lemma_value_steady(a, b, *g.expression, host),
        Expr::Unary(u) => lemma_value_steady(a, b, *u.right, host),
        Expr::Logical(l) => {
            lemma_value_steady(a, b, *l.left, host);
            lemma_value_steady(a, b, *l.right, host);
        },
        Expr::Binary(x) => {
            lemma_value_steady(a, b, *x.left, host);
            lemma_value_steady(a, b, *x.right, host);
        },
        _ => {},
    }
}

/// The machine has evaluated `e` between the states `i` and `k` of a run: it
/// hands over the value, with the frames, the store and the current scope as
/// they were.
pub open spec fn evaluated<'a>(
    trace: Seq<Interpreter<'a>>,
    host: Host,
    i: int,
    k: int,
    e: Expr,
) -> bool {
    &&& 0 <= i <= k < trace.len()
    &&& trace[k].control matches Control::Value(v) && v@ == value_of(&trace[i], e, host)->Ok_0
    &&& trace[k].frames@ == trace[i].frames@
    &&& trace[k].same_store(&trace[i])
    &&& trace[k].environment == trace[i].environment
}

/// The machine has failed on `e` between the states `i` and `k` of a run: the
/// step into `k` failed with the failure of `e`, the machine at `k` is reset,
/// and the store is as it was at `i`.
pub open spec fn failed_on<'a>(
    trace: Seq<Interpreter<'a>>,
    actions: Seq<ActionView>,
    host: Host,
    i: int,
    k: int,
    e: Expr,
) -> bool {
    &&& 0 <= i < k < trace.len()
    &&& actions[k - 1] == ActionView::Failed(value_of(&trace[i], e, host)->Err_0)
    &&& trace[k].failed(&trace[k - 1])
    &&& trace[k].scopes.scopes@ == trace[i].scopes.scopes@
    &&& trace[k].functions@ == trace[i].functions@
    &&& trace[k].classes@ == trace[i].classes@
    &&& trace[k].instances@ == trace[i].instances@
}

/// The evaluation of a quiet expression: from a state that is about to
/// evaluate one whose value exists, the machine comes, in as many steps as
/// the expression takes, to hand over that value, and the frames, the store
/// and the current scope are as they were. The value of a sum, a difference,
/// a product or a quotient in it is what the host answers.
pub proof fn law_quiet_evaluation<'a>(
    trace: Seq<Interpreter<'a>>,
    events: Seq<Event>,
    actions: Seq<ActionView>,
    host: Host,
    i: int,
    e: &'a Expr,
)
    requires
        is_run(trace, events, actions),
        answered(trace, events, host),
        0 <= i,
        i + steps_of(&trace[i], *e, host) < trace.len(),
        trace[i].control == Control::Evaluate(e),
        is_quiet(*e),
        value_of(&trace[i], *e, host) is Ok,
    ensures
        evaluated(trace, host, i, i + steps_of(&trace[i], *e, host), *e),
    decreases *e, 1nat,
{
    match e {
        Expr::Grouping(_) => lemma_quiet_grouping(trace, events, actions, host, i, e),
        Expr::Unary(_) => lemma_quiet_unary(trace, events, actions, host, i, e),
        Expr::Logical(_) => lemma_quiet_logical(trace, events, actions, host, i, e),
        Expr::Binary(_) => lemma_quiet_binary(trace, events, actions, host, i, e),
        _ => {
            reveal(variable_value);
            lemma_evaluate_step(trace, events, actions, i, e);
        },
    }
}

/// The evaluation of a quiet expression that has no value: from a state that
/// is about to evaluate it, the machine comes, in as many steps as the
/// failure takes, to fail with the failure of the expression, and the store
/// is as it was.
pub proof fn law_quiet_evaluation_fails<'a>(
    trace: Seq<Interpreter<'a>>,
    events: Seq<Event>,
    actions: Seq<ActionView>,
    host: Host,
    i: int,
    e: &'a Expr,
)
    requires
        is_run(trace, events, actions),
        answered(trace, events, host),
        0 <= i,
        i + steps_to_failure(&trace[i], *e, host) < trace.len(),
        trace[i].control == Control::Evaluate(e),
        is_quiet(*e),
        value_of(&trace[i], *e, host) is Err,
    ensures
        failed_on(trace, actions, host, i, i + steps_to_failure(&trace[i], *e, host), *e),
    decreases *e, 1nat,
{
    match e {
        Expr::Grouping(_) => lemma_failing_grouping(trace, events, actions, host, i, e),
        Expr::Unary(_) => lemma_failing_unary(trace, events, actions, host, i, e),
        Expr::Logical(_) => lemma_failing_logical(trace, events, actions, host, i, e),
        Expr::Binary(_) => lemma_failing_binary(trace, events, actions, host, i, e),
        _ => {
            reveal(variable_value);
            lemma_evaluate_step(trace, events, actions, i, e);
        },
    }
}

/// The step from a state that is about to evaluate `e`.
proof fn lemma_evaluate_step<'a>(
    trace: Seq<Interpreter<'a>>,
    events: Seq<Event>,
    actions: Seq<ActionView>,
    j: int,
    e: &'a Expr,
)
    requires
        is_run(trace, events, actions),
        0 <= j < trace.len() - 1,
        trace[j].control == Control::Evaluate(e),
    ensures
        match trace[j].evaluate_error(e) {
            Some(err) => actions[j] == ActionView::Failed(err) && trace[j + 1].failed(&trace[j]),
            None => actions[j] == ActionView::Continue && trace[j + 1].evaluate_done(&trace[j], e),
        },
{
    reveal(linked);
    assert(linked(trace, events, actions, j));
}

/// The step from a state that hands over a value.
proof fn lemma_value_step<'a>(
    trace: Seq<Interpreter<'a>>,
    events: Seq<Event>,
    actions: Seq<ActionView>,
    j: int,
)
    requires
        is_run(trace, events, actions),
        0 <= j < trace.len() - 1,
        trace[j].control is Value,
    ensures
        match trace[j].resume_error(trace[j].control->Value_0) {
            Some(err) => actions[j] == ActionView::Failed(err) && trace[j + 1].failed(&trace[j]),
            None => trace[j + 1].resume_done(&trace[j], trace[j].control->Value_0, actions[j]),
        },
{
    reveal(linked);
    assert(linked(trace, events, actions, j));
}

/// The step from a state that awaits the host.
proof fn lemma_awaiting_step<'a>(
    trace: Seq<Interpreter<'a>>,
    events: Seq<Event>,
    actions: Seq<ActionView>,
    j: int,
)
    requires
        is_run(trace, events, actions),
        0 <= j < trace.len() - 1,
        trace[j].control is Awaiting,
    ensures
        match Interpreter::receive_error(trace[j].control->Awaiting_0, events[j]) {
            Some(err) => actions[j] == ActionView::Failed(err) && trace[j + 1].failed(&trace[j]),
            None => trace[j + 1].receive_done(
                &trace[j],
                trace[j].control->Awaiting_0,
                events[j],
                actions[j],
            ),
        },
{
    reveal(linked);
    assert(linked(trace, events, actions, j));
}

/// The state in which the first operand of `e` is evaluated.
pub open spec fn first_operand<'a>(e: &'a Expr) -> Control<'a> {
    match e {
        Expr::Grouping(g) => Control::Evaluate(&*g.expression),
        Expr::Unary(u) => Control::Evaluate(&*u.right),
        Expr::Logical(l) => Control::Evaluate(&*l.left),
        Expr::Binary(b) => Control::Evaluate(&*b.left),
        _ => Control::Idle,
    }
}

/// The frames that wait while the first operand of `e` is evaluated.
pub open spec fn with_operation<'a>(frames: Seq<Frame<'a>>, e: &'a Expr) -> Seq<Frame<'a>> {
    match e {
        Expr::Unary(u) => frames.push(Frame::Unary { expr: u }),
        Expr::Logical(l) => frames.push(Frame::Logical { expr: l }),
        Expr::Binary(b) => frames.push(Frame::BinaryLeft { expr: b }),
        _ => frames,
    }
}

/// The first step of an operation: its frame waits and its first operand is
/// evaluated.
proof fn lemma_operation_begins<'a>(
    trace: Seq<Interpreter<'a>>,
    events: Seq<Event>,
    actions: Seq<ActionView>,
    j: int,
    e: &'a Expr,
)
    requires
        is_run(trace, events, actions),
        0 <= j < trace.len() - 1,
        trace[j].control == Control::Evaluate(e),
        *e is Grouping || *e is Unary || *e is Logical || *e is Binary,
    ensures
        actions[j] == ActionView::Continue,
        trace[j + 1].went(&trace[j], first_operand(e), with_operation(trace[j].frames@, e)),
{
    lemma_evaluate_step(trace, events, actions, j, e);
}

/// The step that hands a value to the frame of a unary operation.
proof fn lemma_unary_applied<'a>(
    trace: Seq<Interpreter<'a>>,
    events: Seq<Event>,
    actions: Seq<ActionView>,
    host: Host,
    j: int,
    u: &'a crate::expr::UnaryExpr,
    frames: Seq<Frame<'a>>,
)
    requires
        is_run(trace, events, actions),
        0 <= j < trace.len() - 1,
        trace[j].control is Value,
        trace[j].frames@ == frames.push(Frame::Unary { expr: u }),
    ensures
        match outcome(
            unary_result(u.operator.token_type, trace[j].control->Value_0@),
            u.operator.line,
            host,
        ) {
            Ok(v) => {
                &&& trace[j + 1].control matches Control::Value(o) && o@ == v
                &&& trace[j + 1].frames@ == frames
                &&& trace[j + 1].same_store(&trace[j])
                &&& trace[j + 1].environment == trace[j].environment
            },
            Err(err) => actions[j] == ActionView::Failed(err) && trace[j + 1].failed(&trace[j]),
        },
{
    reveal(unary_result);
    lemma_value_step(trace, events, actions, j);
    assert(frames.push(Frame::Unary { expr: u }).drop_last() =~= frames);
    assert(trace[j].frames@.last() == (Frame::Unary { expr: u }));
}

/// The step that hands a value to the frame of `and` or `or`.
proof fn lemma_logical_applied<'a>(
    trace: Seq<Interpreter<'a>>,
    events: Seq<Event>,
    actions: Seq<ActionView>,
    j: int,
    l: &'a crate::expr::LogicalExpr,
    frames: Seq<Frame<'a>>,
)
    requires
        is_run(trace, events, actions),
        0 <= j < trace.len() - 1,
        trace[j].control is Value,
        trace[j].frames@ == frames.push(Frame::Logical { expr: l }),
    ensures
        actions[j] == ActionView::Continue,
        trace[j + 1].went(
            &trace[j],
            if decided_by_left(l.operator.token_type, trace[j].control->Value_0@) {
                trace[j].control
            } else {
                Control::Evaluate(&*l.right)
            },
            frames,
        ),
{
    lemma_value_step(trace, events, actions, j);
    assert(frames.push(Frame::Logical { expr: l }).drop_last() =~= frames);
    assert(trace[j].frames@.last() == (Frame::Logical { expr: l }));
}

/// The step that hands the value of the left operand to the frame of a
/// binary operation.
proof fn lemma_left_applied<'a>(
    trace: Seq<Interpreter<'a>>,
    events: Seq<Event>,
    actions: Seq<ActionView>,
    j: int,
    b: &'a crate::expr::BinaryExpr,
    frames: Seq<Frame<'a>>,
)
    requires
        is_run(trace, events, actions),
        0 <= j < trace.len() - 1,
        trace[j].control is Value,
        trace[j].frames@ == frames.push(Frame::BinaryLeft { expr: b }),
    ensures
        actions[j] == ActionView::Continue,
        trace[j + 1].went(
            &trace[j],
            Control::Evaluate(&*b.right),
            frames.push(Frame::BinaryRight { expr: b, left: trace[j].control->Value_0 }),
        ),
{
    lemma_value_step(trace, events, actions, j);
    assert(frames.push(Frame::BinaryLeft { expr: b }).drop_last() =~= frames);
    assert(trace[j].frames@.last() == (Frame::BinaryLeft { expr: b }));
}

/// The last steps of a binary operation: from a state that hands the value
/// of the right operand to the frame that holds the left one, the machine
/// comes to hand over the value of the operation, after the host's answer
/// where it is asked, or to fail with the failure of the operation.
proof fn lemma_binary_applied<'a>(
    trace: Seq<Interpreter<'a>>,
    events: Seq<Event>,
    actions: Seq<ActionView>,
    host: Host,
    n: int,
    b: &'a crate::expr::BinaryExpr,
    left: Object,
    frames: Seq<Frame<'a>>,
)
    requires
        is_run(trace, events, actions),
        answered(trace, events, host),
        0 <= n,
        trace[n].control is Value,
        n + 1 + asked(binary_result(b.operator.token_type, left@, trace[n].control->Value_0@))
            < trace.len(),
        trace[n].frames@ == frames.push(Frame::BinaryRight { expr: b, left }),
    ensures
        ({
            let c = binary_result(b.operator.token_type, left@, trace[n].control->Value_0@);
            let k = n + 1 + asked(c);
            match outcome(c, b.operator.line, host) {
                Ok(v) => {
                    &&& trace[k].control matches Control::Value(o) && o@ == v
                    &&& trace[k].frames@ == frames
                    &&& trace[k].same_store(&trace[n])
                    &&& trace[k].environment == trace[n].environment
                },
                Err(err) => {
                    &&& actions[k - 1] == ActionView::Failed(err)
                    &&& trace[k].failed(&trace[k - 1])
                    &&& trace[k - 1].same_store(&trace[n])
                },
            }
        }),
{
    reveal(binary_result);
    let waiting = Frame::BinaryRight { expr: b, left };
    lemma_value_step(trace, events, actions, n);
    assert(frames.push(waiting).drop_last() =~= frames);
    assert(trace[n].frames@.last() == waiting);
    let c = binary_result(b.operator.token_type, left@, trace[n].control->Value_0@);
    if asked(c) == 1 {
        lemma_awaiting_step(trace, events, actions, n + 1);
        assert(answered_at(trace, events, host, n + 1));
    }
}

/// [`law_quiet_evaluation`] for a grouping.
proof fn lemma_quiet_grouping<'a>(
    trace: Seq<Interpreter<'a>>,
    events: Seq<Event>,
    actions: Seq<ActionView>,
    host: Host,
    i: int,
    e: &'a Expr,
)
    requires
        is_run(trace, events, actions),
        answered(trace, events, host),
        0 <= i,
        i + steps_of(&trace[i], *e, host) < trace.len(),
        trace[i].control == Control::Evaluate(e),
        is_quiet(*e),
        value_of(&trace[i], *e, host) is Ok,
        *e is Grouping,
    ensures
        evaluated(trace, host, i, i + steps_of(&trace[i], *e, host), *e),
    decreases *e, 0nat,
{
    lemma_operation_begins(trace, events, actions, i, e);
    match e {
        Expr::Grouping(g) => {
            lemma_value_steady(&trace[i + 1], &trace[i], *g.expression, host);
            law_quiet_evaluation(trace, events, actions, host, i + 1, &*g.expression);
        },
        _ => {},
    }
}

/// [`law_quiet_evaluation`] for a unary expression.
proof fn lemma_quiet_unary<'a>(
    trace: Seq<Interpreter<'a>>,
    events: Seq<Event>,
    actions: Seq<ActionView>,
    host: Host,
    i: int,
    e: &'a Expr,
)
    requires
        is_run(trace, events, actions),
        answered(trace, events, host),
        0 <= i,
        i + steps_of(&trace[i], *e, host) < trace.len(),
        trace[i].control == Control::Evaluate(e),
        is_quiet(*e),
        value_of(&trace[i], *e, host) is Ok,
        *e is Unary,
    ensures
        evaluated(trace, host, i, i + steps_of(&trace[i], *e, host), *e),
    decreases *e, 0nat,
{
    lemma_operation_begins(trace, events, actions, i, e);
    let frames = trace[i].frames@;
    match e {
        Expr::Unary(u) => {
            lemma_value_steady(&trace[i + 1], &trace[i], *u.right, host);
            law_quiet_evaluation(trace, events, actions, host, i + 1, &*u.right);
            let m = i + 1 + steps_of(&trace[i], *u.right, host);
            lemma_unary_applied(trace, events, actions, host, m, u, frames);
        },
        _ => {},
    }
}

/// [`law_quiet_evaluation`] for `and` and `or`.
proof fn lemma_quiet_logical<'a>(
    trace: Seq<Interpreter<'a>>,
    events: Seq<Event>,
    actions: Seq<ActionView>,
    host: Host,
    i: int,
    e: &'a Expr,
)
    requires
        is_run(trace, events, actions),
        answered(trace, events, host),
        0 <= i,
        i + steps_of(&trace[i], *e, host) < trace.len(),
        trace[i].control == Control::Evaluate(e),
        is_quiet(*e),
        value_of(&trace[i], *e, host) is Ok,
        *e is Logical,
    ensures
        evaluated(trace, host, i, i + steps_of(&trace[i], *e, host), *e),
    decreases *e, 0nat,
{
    lemma_operation_begins(trace, events, actions, i, e);
    let frames = trace[i].frames@;
    match e {
        Expr::Logical(l) => {
            lemma_value_steady(&trace[i + 1], &trace[i], *l.left, host);
            law_quiet_evaluation(trace, events, actions, host, i + 1, &*l.left);
            let m = i + 1 + steps_of(&trace[i], *l.left, host);
            lemma_logical_applied(trace, events, actions, m, l, frames);
            let left = value_of(&trace[i], *l.left, host)->Ok_0;
            if !decided_by_left(l.operator.token_type, left) {
                lemma_value_steady(&trace[m + 1], &trace[i], *l.right, host);
                law_quiet_evaluation(trace, events, actions, host, m + 1, &*l.right);
            }
        },
        _ => {},
    }
}

/// [`law_quiet_evaluation`] for a binary expression.
proof fn lemma_quiet_binary<'a>(
    trace: Seq<Interpreter<'a>>,
    events: Seq<Event>,
    actions: Seq<ActionView>,
    host: Host,
    i: int,
    e: &'a Expr,
)
    requires
        is_run(trace, events, actions),
        answered(trace, events, host),
        0 <= i,
        i + steps_of(&trace[i], *e, host) < trace.len(),
        trace[i].control == Control::Evaluate(e),
        is_quiet(*e),
        value_of(&trace[i], *e, host) is Ok,
        *e is Binary,
    ensures
        evaluated(trace, host, i, i + steps_of(&trace[i], *e, host), *e),
    decreases *e, 0nat,
{
    lemma_operation_begins(trace, events, actions, i, e);
    let frames = trace[i].frames@;
    match e {
        Expr::Binary(b) => {
            lemma_value_steady(&trace[i + 1], &trace[i], *b.left, host);
            law_quiet_evaluation(trace, events, actions, host, i + 1, &*b.left);
            let m = i + 1 + steps_of(&trace[i], *b.left, host);
            lemma_left_applied(trace, events, actions, m, b, frames);
            let left = trace[m].control->Value_0;
            let waiting = Frame::BinaryRight { expr: b, left };
            lemma_value_steady(&trace[m + 1], &trace[i], *b.right, host);
            law_quiet_evaluation(trace, events, actions, host, m + 1, &*b.right);
            let n = m + 1 + steps_of(&trace[i], *b.right, host);
            lemma_binary_applied(trace, events, actions, host, n, b, left, frames);
        },
        _ => {},
    }
}

/// [`law_quiet_evaluation_fails`] for a grouping.
proof fn lemma_failing_grouping<'a>(
    trace: Seq<Interpreter<'a>>,
    events: Seq<Event>,
    actions: Seq<ActionView>,
    host: Host,
    i: int,
    e: &'a Expr,
)
    requires
        is_run(trace, events, actions),
        answered(trace, events, host),
        0 <= i,
        i + steps_to_failure(&trace[i], *e, host) < trace.len(),
        trace[i].control == Control::Evaluate(e),
        is_quiet(*e),
        value_of(&trace[i], *e, host) is Err,
        *e is Grouping,
    ensures
        failed_on(trace, actions, host, i, i + steps_to_failure(&trace[i], *e, host), *e),
    decreases *e, 0nat,
{
    lemma_operation_begins(trace, events, actions, i, e);
    match e {
        Expr::Grouping(g) => {
            lemma_value_steady(&trace[i + 1], &trace[i], *g.expression, host);
            law_quiet_evaluation_fails(trace, events, actions, host, i + 1, &*g.expression);
        },
        _ => {},
    }
}

/// [`law_quiet_evaluation_fails`] for a unary expression.
proof fn lemma_failing_unary<'a>(
    trace: Seq<Interpreter<'a>>,
    events: Seq<Event>,
    actions: Seq<ActionView>,
    host: Host,
    i: int,
    e: &'a Expr,
)
    requires
        is_run(trace, events, actions),
        answered(trace, events, host),
        0 <= i,
        i + steps_to_failure(&trace[i], *e, host) < trace.len(),
        trace[i].control == Control::Evaluate(e),
        is_quiet(*e),
        value_of(&trace[i], *e, host) is Err,
        *e is Unary,
    ensures
        failed_on(trace, actions, host, i, i + steps_to_failure(&trace[i], *e, host), *e),
    decreases *e, 0nat,
{
    lemma_operation_begins(trace, events, actions, i, e);
    let frames = trace[i].frames@;
    match e {
        Expr::Unary(u) => {
            lemma_value_steady(&trace[i + 1], &trace[i], *u.right, host);
            if value_of(&trace[i], *u.right, host) is Err {
                law_quiet_evaluation_fails(trace, events, actions, host, i + 1, &*u.right);
            } else {
                law_quiet_evaluation(trace, events, actions, host, i + 1, &*u.right);
                let m = i + 1 + steps_of(&trace[i], *u.right, host);
                lemma_unary_applied(trace, events, actions, host, m, u, frames);
            }
        },
        _ => {},
    }
}

/// [`law_quiet_evaluation_fails`] for `and` and `or`.
proof fn lemma_failing_logical<'a>(
    trace: Seq<Interpreter<'a>>,
    events: Seq<Event>,
    actions: Seq<ActionView>,
    host: Host,
    i: int,
    e: &'a Expr,
)
    requires
        is_run(trace, events, actions),
        answered(trace, events, host),
        0 <= i,
        i + steps_to_failure(&trace[i], *e, host) < trace.len(),
        trace[i].control == Control::Evaluate(e),
        is_quiet(*e),
        value_of(&trace[i], *e, host) is Err,
        *e is Logical,
    ensures
        failed_on(trace, actions, host, i, i + steps_to_failure(&trace[i], *e, host), *e),
    decreases *e, 0nat,
{
    lemma_operation_begins(trace, events, actions, i, e);
    let frames = trace[i].frames@;
    match e {
        Expr::Logical(l) => {
            lemma_value_steady(&trace[i + 1], &trace[i], *l.left, host);
            if value_of(&trace[i], *l.left, host) is Err {
                law_quiet_evaluation_fails(trace, events, actions, host, i + 1, &*l.left);
            } else {
                law_quiet_evaluation(trace, events, actions, host, i + 1, &*l.left);
                let m = i + 1 + steps_of(&trace[i], *l.left, host);
                lemma_logical_applied(trace, events, actions, m, l, frames);
                lemma_value_steady(&trace[m + 1], &trace[i], *l.right, host);
                law_quiet_evaluation_fails(trace, events, actions, host, m + 1, &*l.right);
            }
        },
        _ => {},
    }
}

/// [`law_quiet_evaluation_fails`] for a binary expression.
proof fn lemma_failing_binary<'a>(
    trace: Seq<Interpreter<'a>>,
    events: Seq<Event>,
    actions: Seq<ActionView>,
    host: Host,
    i: int,
    e: &'a Expr,
)
    requires
        is_run(trace, events, actions),
        answered(trace, events, host),
        0 <= i,
        i + steps_to_failure(&trace[i], *e, host) < trace.len(),
        trace[i].control == Control::Evaluate(e),
        is_quiet(*e),
        value_of(&trace[i], *e, host) is Err,
        *e is Binary,
    ensures
        failed_on(trace, actions, host, i, i + steps_to_failure(&trace[i], *e, host), *e),
    decreases *e, 0nat,
{
    lemma_operation_begins(trace, events, actions, i, e);
    let frames = trace[i].frames@;
    match e {
        Expr::Binary(b) => {
            lemma_value_steady(&trace[i + 1], &trace[i], *b.left, host);
            if value_of(&trace[i], *b.left, host) is Err {
                law_quiet_evaluation_fails(trace, events, actions, host, i + 1, &*b.left);
            } else {
                law_quiet_evaluation(trace, events, actions, host, i + 1, &*b.left);
                let m = i + 1 + steps_of(&trace[i], *b.left, host);
                lemma_left_applied(trace, events, actions, m, b, frames);
                let left = trace[m].control->Value_0;
                let waiting = Frame::BinaryRight { expr: b, left };
                lemma_value_steady(&trace[m + 1], &trace[i], *b.right, host);
                if value_of(&trace[i], *b.right, host) is Err {
                    law_quiet_evaluation_fails(trace, events, actions, host, m + 1, &*b.right);
                } else {
                    law_quiet_evaluation(trace, events, actions, host, m + 1, &*b.right);
                    let n = m + 1 + steps_of(&trace[i], *b.right, host);
                    lemma_binary_applied(trace, events, actions, host, n, b, left, frames);
                }
            }
        },
        _ => {},
    }
}

/// Evaluated twice from states with one store and one current scope, a quiet
/// expression that has no value fails twice with one failure.
pub proof fn law_quiet_failure_repeats<'a>(
    trace: Seq<Interpreter<'a>>,
    events: Seq<Event>,
    actions: Seq<ActionView>,
    host: Host,
    first: int,
    second: int,
    e: &'a Expr,
)
    requires
        is_run(trace, events, actions),
        answered(trace, events, host),
        is_quiet(*e),
        value_of(&trace[first], *e, host) is Err,
        0 <= first,
        first + steps_to_failure(&trace[first], *e, host) < trace.len(),
        0 <= second,
        second + steps_to_failure(&trace[first], *e, host) < trace.len(),
        trace[first].control == Control::Evaluate(e),
        trace[second].control == Control::Evaluate(e),
        trace[second].same_store(&trace[first]),
        trace[second].environment == trace[first].environment,
    ensures
        actions[second + steps_to_failure(&trace[first], *e, host) - 1] == actions[first
            + steps_to_failure(&trace[first], *e, host) - 1],
        actions[first + steps_to_failure(&trace[first], *e, host) - 1] is Failed,
{
    lemma_value_steady(&trace[second], &trace[first], *e, host);
    law_quiet_evaluation_fails(trace, events, actions, host, first, e);
    law_quiet_evaluation_fails(trace, events, actions, host, second, e);
}

/// Evaluated twice in one state, a quiet expression gives one value: the
/// first evaluation leaves the store and the current scope as they were, and
/// the value depends on nothing else but the answers of the host. Two values
/// are one if they are the same nil, boolean, number, text or handle.
pub proof fn law_quiet_evaluation_repeats<'a>(
    trace: Seq<Interpreter<'a>>,
    events: Seq<Event>,
    actions: Seq<ActionView>,
    host: Host,
    first: int,
    second: int,
    e: &'a Expr,
)
    requires
        is_run(trace, events, actions),
        answered(trace, events, host),
        is_quiet(*e),
        value_of(&trace[first], *e, host) is Ok,
        0 <= first,
        first + steps_of(&trace[first], *e, host) <= second,
        second + steps_of(&trace[first], *e, host) < trace.len(),
        trace[first].control == Control::Evaluate(e),
        trace[second].control == Control::Evaluate(e),
        trace[second].same_store(&trace[first + steps_of(&trace[first], *e, host)]),
        trace[second].environment == trace[first + steps_of(&trace[first], *e, host)].environment,
    ensures
        trace[first + steps_of(&trace[first], *e, host)].control is Value,
        trace[second + steps_of(&trace[first], *e, host)].control is Value,
        trace[second + steps_of(&trace[first], *e, host)].control->Value_0@ == trace[first
            + steps_of(&trace[first], *e, host)].control->Value_0@,
        trace[second + steps_of(&trace[first], *e, host)].same_store(&trace[first]),
        trace[second + steps_of(&trace[first], *e, host)].environment == trace[first].environment,
{
    law_quiet_evaluation(trace, events, actions, host, first, e);
    lemma_value_steady(&trace[second], &trace[first], *e, host);
    law_quiet_evaluation(trace, events, actions, host, second, e);
}

/// `nil`, `true` and `false` are printed as they are spelled: the value that
/// the scanner gives to one of these words has the word as its text. So has a
/// string its own text.
pub proof fn law_literal_prints_as_spelled(st: &Interpreter, word: Seq<char>, value: Object)
    requires
        word == "nil"@ || word == "true"@ || word == "false"@,
        value@ == word_literal(word_kind(word)),
    ensures
        st.display(value) == word,
        forall|s: String| st.display(Object::String(s)) == s@,
{
    reveal_strlit("nil");
    reveal_strlit("true");
    reveal_strlit("false");
    reveal_strlit("and");
    reveal_strlit("class");
    reveal_strlit("else");
    reveal_strlit("for");
    reveal_strlit("fun");
    reveal_strlit("if");
    if word == "nil"@ {
        assert(word.len() == 3);
        assert(word[0] == 'n');
    } else if word == "true"@ {
        assert(word.len() == 4);
        assert(word[0] == 't');
        assert(word_kind(word) == TokenType::True) by {
            reveal_strlit("or");
            reveal_strlit("print");
            reveal_strlit("return");
            reveal_strlit("super");
            reveal_strlit("this");
            assert("this"@[1] == 'h');
            assert(word[1] == 'r');
        }
    } else {
        assert(word.len() == 5);
        assert(word[0] == 'f');
        assert("class"@[0] == 'c');
        assert(word_kind(word) == TokenType::False);
    }
}

} // verus!
