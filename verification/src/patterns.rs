//! Patterns: values that accept or reject a target.

use vstd::prelude::*;

pub mod eq_patterns;
pub mod expr_patterns;
pub mod sparse;
pub mod token_patterns;
pub mod wildcard_patterns;

verus! {

/// A pattern against `T`s.
pub trait Pattern<T> {
    /// Whether `match_pattern` answers as `match_spec` says.
    spec fn obeys_match_spec() -> bool;

    /// Whether the pattern accepts `target`.
    spec fn match_spec(&self, target: &T) -> bool;

    /// Match the pattern against `target`.
    fn match_pattern(&self, target: &T) -> (out: bool)
        ensures
            Self::obeys_match_spec() ==> out == self.match_spec(target),
    ;
}

} // verus!
