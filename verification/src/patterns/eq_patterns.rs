//! Patterns that accept what equals a stored value.

use vstd::prelude::*;
use vstd::std_specs::cmp::PartialEqSpec;
use crate::nodes::Shown;
use crate::patterns::Pattern;

verus! {

/// Pattern matching via equality with the stored value.
#[derive(Debug)]
pub struct EqPattern<P>(pub P);

impl<P: PartialEq<Rhs>, Rhs> Pattern<Rhs> for EqPattern<P> {
    open spec fn obeys_match_spec() -> bool {
        P::obeys_eq_spec()
    }

    open spec fn match_spec(&self, target: &Rhs) -> bool {
        self.0.eq_spec(target)
    }

    fn match_pattern(&self, target: &Rhs) -> (out: bool) {
        self.0 == *target
    }
}

impl<P: PartialEq<Rhs>, Rhs> PartialEq<Rhs> for EqPattern<P> {
    /// An equality pattern equals what its stored value equals.
    fn eq(&self, rhs: &Rhs) -> (out: bool) {
        self.0 == *rhs
    }
}

impl<P: PartialEq<Rhs>, Rhs> vstd::std_specs::cmp::PartialEqSpecImpl<Rhs> for EqPattern<P> {
    open spec fn obeys_eq_spec() -> bool {
        P::obeys_eq_spec()
    }

    open spec fn eq_spec(&self, rhs: &Rhs) -> bool {
        self.0.eq_spec(rhs)
    }
}

impl<P: Shown> Shown for EqPattern<P> {
    open spec fn shown(&self) -> Seq<char> {
        self.0.shown()
    }

    fn to_string(&self) -> (text: String) {
        self.0.to_string()
    }
}

} // verus!
