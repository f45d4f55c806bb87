//! The pattern that accepts everything.

use vstd::prelude::*;
use vstd::string::*;
use crate::nodes::Shown;
use crate::patterns::Pattern;

verus! {

/// Wildcard pattern which matches against everything, the absence of
/// information included.
#[derive(Debug)]
pub struct WildcardPattern;

impl<T> Pattern<T> for WildcardPattern {
    open spec fn obeys_match_spec() -> bool {
        true
    }

    open spec fn match_spec(&self, target: &T) -> bool {
        true
    }

    fn match_pattern(&self, target: &T) -> (out: bool) {
        true
    }
}

impl<T> PartialEq<T> for WildcardPattern {
    /// A wildcard equals everything that it is compared with.
    fn eq(&self, rhs: &T) -> (out: bool) {
        self.match_pattern(rhs)
    }
}

impl<T> vstd::std_specs::cmp::PartialEqSpecImpl<T> for WildcardPattern {
    open spec fn obeys_eq_spec() -> bool {
        true
    }

    open spec fn eq_spec(&self, rhs: &T) -> bool {
        true
    }
}

impl Shown for WildcardPattern {
    open spec fn shown(&self) -> Seq<char> {
        "Wildcard"@
    }

    fn to_string(&self) -> (text: String) {
        String::from_str("Wildcard")
    }
}

} // verus!
