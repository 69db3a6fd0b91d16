//! The scopes of a running program. Every scope lives in one store and is
//! known by its index; a scope names the scope that encloses it, which is
//! always an older one, so that the chain from any scope ends at a root.
use vstd::prelude::*;
use vstd::hash_map::StringHashMap;
use vstd::string::StringExecFns;
use crate::err::{LoxErr, LoxErrView};
use crate::object::Object;
use crate::token::Token;

verus! {

/// One scope: its bindings, and the scope around it.
pub struct Scope {
    pub enclosing: Option<usize>,
    pub values: StringHashMap<Object>,
}

/// The store of scopes.
pub struct Environment {
    pub scopes: Vec<Scope>,
}

/// Every scope is enclosed by an older one, or by none.
pub open spec fn chain_ok(scopes: Seq<Scope>) -> bool {
    forall|i: int|
        0 <= i < scopes.len() ==> match (#[trigger] scopes[i]).enclosing {
            Some(p) => p < i,
            None => true,
        }
}

/// The scope `distance` steps out from `at`, if the chain is that long.
pub open spec fn ancestor_of(scopes: Seq<Scope>, at: int, distance: nat) -> Option<int>
    decreases distance,
{
    if !(0 <= at < scopes.len()) {
        None
    } else if distance == 0 {
        Some(at)
    } else {
        match scopes[at].enclosing {
            Some(p) => ancestor_of(scopes, p as int, (distance - 1) as nat),
            None => None,
        }
    }
}

/// The nearest scope on the chain from `at` that binds `name`.
pub open spec fn binding_scope(scopes: Seq<Scope>, at: int, name: Seq<char>) -> Option<int>
    decreases at,
{
    if !(0 <= at < scopes.len()) {
        None
    } else if scopes[at].values@.contains_key(name) {
        Some(at)
    } else {
        match scopes[at].enclosing {
            Some(p) => if p < at {
                binding_scope(scopes, p as int, name)
            } else {
                None
            },
            None => None,
        }
    }
}

/// What `name` stands for when looked up from `at`: the binding of the nearest
/// scope that has one.
pub open spec fn lookup(scopes: Seq<Scope>, at: int, name: Seq<char>) -> Option<Object> {
    match binding_scope(scopes, at, name) {
        Some(s) => Some(scopes[s].values@[name]),
        None => None,
    }
}

/// What `name` stands for in the scope `distance` steps out from `at`.
pub open spec fn lookup_at(scopes: Seq<Scope>, at: int, distance: nat, name: Seq<char>) -> Option<
    Object,
> {
    match ancestor_of(scopes, at, distance) {
        Some(s) => if scopes[s].values@.contains_key(name) {
            Some(scopes[s].values@[name])
        } else {
            None
        },
        None => None,
    }
}

/// `after` is `before` with `name` bound to `value` in the scope `s`, and
/// nothing else changed.
pub open spec fn rebound(
    before: Seq<Scope>,
    after: Seq<Scope>,
    s: int,
    name: Seq<char>,
    value: Object,
) -> bool {
    &&& 0 <= s < before.len()
    &&& after.len() == before.len()
    &&& after[s].enclosing == before[s].enclosing
    &&& after[s].values@ == before[s].values@.insert(name, value)
    &&& forall|i: int| 0 <= i < before.len() && i != s ==> after[i] == before[i]
}

/// `after` is `before` with one more scope, which lies in `enclosing` and
/// holds `values`.
pub open spec fn grown(
    before: Seq<Scope>,
    after: Seq<Scope>,
    enclosing: Option<usize>,
    values: Map<Seq<char>, Object>,
) -> bool {
    &&& after.len() == before.len() + 1
    &&& forall|i: int| 0 <= i < before.len() ==> after[i] == before[i]
    &&& after[before.len() as int].enclosing == enclosing
    &&& after[before.len() as int].values@ == values
}

/// The message of a failed lookup.
pub open spec fn undefined_variable(name: Seq<char>) -> Seq<char> {
    "Undefined variable '"@ + name + "'."@
}

pub fn undefined_variable_error(name: &Token) -> (e: LoxErr)
    ensures
        e@ == (LoxErrView::Runtime { line: name.line, message: undefined_variable(name.lexeme@) }),
{
    let mut message = String::from_str("Undefined variable '");
    message.append(name.lexeme.as_str());
    message.append("'.");
    LoxErr::Runtime { line: name.line, message }
}

/// A rebinding elsewhere than in `s` leaves the ancestors as they were.
pub proof fn lemma_rebound_ancestor(
    before: Seq<Scope>,
    after: Seq<Scope>,
    s: int,
    name: Seq<char>,
    value: Object,
    at: int,
    distance: nat,
)
    requires
        rebound(before, after, s, name, value),
    ensures
        ancestor_of(after, at, distance) == ancestor_of(before, at, distance),
    decreases distance,
{
    if 0 <= at < before.len() && distance > 0 {
        match before[at].enclosing {
            Some(p) => lemma_rebound_ancestor(
                before,
                after,
                s,
                name,
                value,
                p as int,
                (distance - 1) as nat,
            ),
            None => {},
        }
    }
}

/// After a rebinding of `name` in the scope that already bound it for `at`, a
/// lookup of `name` from `at` finds the new value.
pub proof fn lemma_rebound_lookup(
    before: Seq<Scope>,
    after: Seq<Scope>,
    s: int,
    name: Seq<char>,
    value: Object,
    at: int,
)
    requires
        rebound(before, after, s, name, value),
        binding_scope(before, at, name) == Some(s),
    ensures
        binding_scope(after, at, name) == Some(s),
        lookup(after, at, name) == Some(value),
    decreases at,
{
    if at != s {
        match before[at].enclosing {
            Some(p) => lemma_rebound_lookup(before, after, s, name, value, p as int),
            None => {},
        }
    }
}

/// A name that was assigned to reads as the value assigned: after an
/// assignment from `at` has succeeded, a lookup from `at` finds the value.
pub proof fn law_assign_then_get(
    before: Seq<Scope>,
    after: Seq<Scope>,
    at: int,
    name: Seq<char>,
    value: Object,
)
    requires
        binding_scope(before, at, name).is_some(),
        rebound(before, after, binding_scope(before, at, name).unwrap(), name, value),
    ensures
        lookup(after, at, name) == Some(value),
{
    lemma_rebound_lookup(before, after, binding_scope(before, at, name).unwrap(), name, value, at);
}

/// The same at a distance: after an assignment to the scope `distance` steps
/// out from `at`, the name reads there as the value assigned.
pub proof fn law_assign_at_then_get_at(
    before: Seq<Scope>,
    after: Seq<Scope>,
    at: int,
    distance: nat,
    name: Seq<char>,
    value: Object,
)
    requires
        lookup_at(before, at, distance, name).is_some(),
        rebound(before, after, ancestor_of(before, at, distance).unwrap(), name, value),
    ensures
        lookup_at(after, at, distance, name) == Some(value),
{
    lemma_rebound_ancestor(
        before,
        after,
        ancestor_of(before, at, distance).unwrap(),
        name,
        value,
        at,
        distance,
    );
}

/// A name that was defined in a scope reads there as the value it was
/// defined with, whatever the scopes around it hold.
pub proof fn law_define_then_get(
    before: Seq<Scope>,
    after: Seq<Scope>,
    scope: int,
    name: Seq<char>,
    value: Object,
)
    requires
        rebound(before, after, scope, name, value),
    ensures
        lookup(after, scope, name) == Some(value),
        lookup_at(after, scope, 0, name) == Some(value),
{
}

impl Environment {
    /// Are the scopes chained as they should be?
    pub open spec fn wf(&self) -> bool {
        chain_ok(self.scopes@)
    }

    /// A store with one scope, the root, which binds nothing.
    pub fn new() -> (r: Environment)
        ensures
            r.wf(),
            r.scopes@.len() == 1,
            r.scopes@[0].enclosing.is_none(),
            r.scopes@[0].values@ == Map::<Seq<char>, Object>::empty(),
    {
        let mut scopes = Vec::new();
        scopes.push(Scope { enclosing: None, values: StringHashMap::new() });
        Environment { scopes }
    }

    /// Adds a scope that binds nothing and has no scope around it, and returns
    /// its index.
    pub fn add_scope(&mut self) -> (r: usize)
        requires
            old(self).wf(),
        ensures
            final(self).wf(),
            r == old(self).scopes@.len(),
            final(self).scopes@.len() == r + 1,
            final(self).scopes@.subrange(0, r as int) == old(self).scopes@,
            final(self).scopes@[r as int].enclosing.is_none(),
            final(self).scopes@[r as int].values@ == Map::<Seq<char>, Object>::empty(),
    {
        let r = self.scopes.len();
        self.scopes.push(Scope { enclosing: None, values: StringHashMap::new() });
        assert(self.scopes@.subrange(0, r as int) =~= old(self).scopes@);
        r
    }

    /// Adds a scope that binds nothing and lies in `enclosing`, and returns
    /// its index.
    pub fn nested(&mut self, enclosing: usize) -> (r: usize)
        requires
            old(self).wf(),
            enclosing < old(self).scopes@.len(),
        ensures
            final(self).wf(),
            r == old(self).scopes@.len(),
            grown(old(self).scopes@, final(self).scopes@, Some(enclosing), Map::empty()),
    {
        let r = self.add_scope();
        assert(forall|i: int| 0 <= i < r ==> self.scopes@[i] == self.scopes@.subrange(0, r as int)[i]);
        self.set_enclosing(r, enclosing);
        r
    }

    /// Puts the scope `scope` inside the older scope `enclosing`.
    pub fn set_enclosing(&mut self, scope: usize, enclosing: usize)
        requires
            old(self).wf(),
            enclosing < scope < old(self).scopes@.len(),
        ensures
            final(self).wf(),
            final(self).scopes@.len() == old(self).scopes@.len(),
            final(self).scopes@[scope as int].enclosing == Some(enclosing),
            final(self).scopes@[scope as int].values == old(self).scopes@[scope as int].values,
            forall|i: int|
                0 <= i < old(self).scopes@.len() && i != scope ==> final(self).scopes@[i] == old(
                    self,
                ).scopes@[i],
    {
        self.scopes[scope].enclosing = Some(enclosing);
    }

    /// Binds `name` to `value` in the scope `scope`, in place of an earlier
    /// binding of that scope if there is one.
    pub fn define(&mut self, scope: usize, name: &str, value: Object)
        requires
            old(self).wf(),
            scope < old(self).scopes@.len(),
        ensures
            final(self).wf(),
            rebound(old(self).scopes@, final(self).scopes@, scope as int, name@, value),
    {
        self.scopes[scope].values.insert(String::from_str(name), value);
    }

    /// The value of `name`, looked up from the scope `scope` outwards.
    pub fn get(&self, scope: usize, name: &Token) -> (r: Result<Object, LoxErr>)
        requires
            self.wf(),
        ensures
            match lookup(self.scopes@, scope as int, name.lexeme@) {
                Some(v) => r == Ok::<Object, LoxErr>(v),
                None => r is Err && r->Err_0@ == (LoxErrView::Runtime {
                    line: name.line,
                    message: undefined_variable(name.lexeme@),
                }),
            },
    {
        match self.find(scope, name.lexeme.as_str()) {
            Some(s) => {
                match self.scopes[s].values.get(name.lexeme.as_str()) {
                    Some(v) => Ok(v.clone()),
                    None => Err(undefined_variable_error(name)),
                }
            },
            None => Err(undefined_variable_error(name)),
        }
    }

    /// The nearest scope, from `scope` outwards, that binds `name`.
    pub fn find(&self, scope: usize, name: &str) -> (r: Option<usize>)
        requires
            self.wf(),
        ensures
            match r {
                Some(s) => s < self.scopes@.len() && self.scopes@[s as int].values@.contains_key(
                    name@,
                ) && binding_scope(self.scopes@, scope as int, name@) == Some(s as int),
                None => binding_scope(self.scopes@, scope as int, name@).is_none(),
            },
    {
        if scope >= self.scopes.len() {
            return None;
        }
        let mut at: usize = scope;
        loop
            invariant
                self.wf(),
                at < self.scopes@.len(),
                binding_scope(self.scopes@, at as int, name@) == binding_scope(
                    self.scopes@,
                    scope as int,
                    name@,
                ),
            decreases at,
        {
            if self.scopes[at].values.contains_key(name) {
                return Some(at);
            }
            match self.scopes[at].enclosing {
                Some(p) => {
                    at = p;
                },
                None => {
                    return None;
                },
            }
        }
    }

    /// Gives `name` the value `value` in the nearest scope, from `scope`
    /// outwards, that binds it; fails, and changes nothing, if none does.
    pub fn assign(&mut self, scope: usize, name: &Token, value: Object) -> (r: Result<(), LoxErr>)
        requires
            old(self).wf(),
        ensures
            final(self).wf(),
            match binding_scope(old(self).scopes@, scope as int, name.lexeme@) {
                Some(s) => r is Ok && rebound(
                    old(self).scopes@,
                    final(self).scopes@,
                    s,
                    name.lexeme@,
                    value,
                ),
                None => final(self).scopes@ == old(self).scopes@ && r is Err && r->Err_0@ == (
                LoxErrView::Runtime { line: name.line, message: undefined_variable(name.lexeme@) }),
            },
    {
        match self.find(scope, name.lexeme.as_str()) {
            Some(s) => {
                self.scopes[s].values.insert(name.lexeme.clone(), value);
                Ok(())
            },
            None => Err(undefined_variable_error(name)),
        }
    }

    /// The scope `distance` steps out from `scope`, if there is one.
    pub fn find_ancestor(&self, scope: usize, distance: usize) -> (r: Option<usize>)
        requires
            self.wf(),
        ensures
            match r {
                Some(s) => s < self.scopes@.len() && ancestor_of(
                    self.scopes@,
                    scope as int,
                    distance as nat,
                ) == Some(s as int),
                None => ancestor_of(self.scopes@, scope as int, distance as nat).is_none(),
            },
    {
        if scope >= self.scopes.len() {
            return None;
        }
        let mut at: usize = scope;
        let mut left: usize = distance;
        while left > 0
            invariant
                self.wf(),
                at < self.scopes@.len(),
                ancestor_of(self.scopes@, at as int, left as nat) == ancestor_of(
                    self.scopes@,
                    scope as int,
                    distance as nat,
                ),
            decreases left,
        {
            match self.scopes[at].enclosing {
                Some(p) => {
                    at = p;
                    left = left - 1;
                },
                None => {
                    return None;
                },
            }
        }
        Some(at)
    }

    /// Does the scope `distance` steps out from `scope` exist and bind `name`?
    pub fn contains_at(&self, scope: usize, distance: usize, name: &str) -> (r: bool)
        requires
            self.wf(),
        ensures
            r == lookup_at(self.scopes@, scope as int, distance as nat, name@).is_some(),
    {
        match self.find_ancestor(scope, distance) {
            Some(s) => self.scopes[s].values.contains_key(name),
            None => false,
        }
    }

    /// The scope `distance` steps out from `scope`.
    pub fn ancestor(&self, scope: usize, distance: usize) -> (r: usize)
        requires
            self.wf(),
            distance >= 1,
            ancestor_of(self.scopes@, scope as int, distance as nat).is_some(),
        ensures
            Some(r as int) == ancestor_of(self.scopes@, scope as int, distance as nat),
            r < self.scopes@.len(),
    {
        match self.find_ancestor(scope, distance) {
            Some(s) => s,
            None => scope,
        }
    }

    /// The value of `name` in the scope `distance` steps out from `scope`.
    pub fn get_at(&self, scope: usize, distance: usize, name: &str) -> (r: Object)
        requires
            self.wf(),
            lookup_at(self.scopes@, scope as int, distance as nat, name@).is_some(),
        ensures
            Some(r) == lookup_at(self.scopes@, scope as int, distance as nat, name@),
    {
        let s = match self.find_ancestor(scope, distance) {
            Some(s) => s,
            None => scope,
        };
        match self.scopes[s].values.get(name) {
            Some(v) => v.clone(),
            None => Object::Nil,
        }
    }

    /// Gives `name` the value `value` in the scope `distance` steps out from
    /// `scope`, which binds it already.
    pub fn assign_at(&mut self, scope: usize, distance: usize, name: &Token, value: Object)
        requires
            old(self).wf(),
            lookup_at(old(self).scopes@, scope as int, distance as nat, name.lexeme@).is_some(),
        ensures
            final(self).wf(),
            rebound(
                old(self).scopes@,
                final(self).scopes@,
                ancestor_of(old(self).scopes@, scope as int, distance as nat).unwrap(),
                name.lexeme@,
                value,
            ),
    {
        let s = match self.find_ancestor(scope, distance) {
            Some(s) => s,
            None => scope,
        };
        self.scopes[s].values.insert(name.lexeme.clone(), value);
    }
}

} // verus!
