//! What the resolver annotates.
use vstd::prelude::*;
use crate::token::Token;

verus! {

/// A node that names a binding and records how many scopes lie between it and
/// the scope of that binding.
pub trait Resolvable {
    /// The token that names the binding.
    spec fn resolved_name(&self) -> Token;

    /// The recorded distance, unset for a global.
    spec fn resolved_distance(&self) -> Option<usize>;

    fn name(&self) -> (r: &Token)
        ensures
            *r == self.resolved_name(),
    ;

    fn set_distance(&mut self, distance: usize)
        ensures
            final(self).resolved_distance() == Some(distance),
            final(self).resolved_name() == old(self).resolved_name(),
    ;

    fn get_distance(&self) -> (r: Option<usize>)
        ensures
            r == self.resolved_distance(),
    ;
}

} // verus!
