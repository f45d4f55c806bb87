//! Head patterns over tokens: either of the two leaf kinds.

use vstd::prelude::*;
use crate::exprs::builders::Builder;
use crate::nodes::Shown;
use crate::patterns::Pattern;
use crate::patterns::expr_patterns::ExprPattern;
use crate::patterns::eq_patterns::EqPattern;
use crate::patterns::wildcard_patterns::WildcardPattern;
use crate::tokens::Token;

verus! {

/// A pattern against head tokens which is a wildcard or an equality pattern, so
/// that one tree of patterns can hold both.
#[derive(Debug)]
pub enum TokenPattern {
    /// Accepts every token, and the absence of one.
    Wildcard(WildcardPattern),
    /// Accepts the tokens equal to the stored one, and never the absence of one.
    Eq(EqPattern<Token>),
}

impl TokenPattern {
    /// The pattern that accepts everything.
    pub fn wildcard() -> (out: Self)
        ensures
            out == TokenPattern::Wildcard(WildcardPattern),
    {
        TokenPattern::Wildcard(WildcardPattern)
    }

    /// The pattern that accepts the tokens equal to `token`.
    pub fn equals(token: Token) -> (out: Self)
        ensures
            out == TokenPattern::Eq(EqPattern(token)),
    {
        TokenPattern::Eq(EqPattern(token))
    }
}

impl Pattern<Token> for TokenPattern {
    open spec fn obeys_match_spec() -> bool {
        true
    }

    open spec fn match_spec(&self, target: &Token) -> bool {
        match self {
            TokenPattern::Wildcard(_) => true,
            TokenPattern::Eq(pattern) => pattern.0@ == target@,
        }
    }

    fn match_pattern(&self, target: &Token) -> (out: bool) {
        match self {
            TokenPattern::Wildcard(pattern) => pattern.match_pattern(target),
            TokenPattern::Eq(pattern) => pattern.match_pattern(target),
        }
    }
}

impl Pattern<()> for TokenPattern {
    open spec fn obeys_match_spec() -> bool {
        true
    }

    open spec fn match_spec(&self, target: &()) -> bool {
        self is Wildcard
    }

    fn match_pattern(&self, target: &()) -> (out: bool) {
        match self {
            TokenPattern::Wildcard(pattern) => pattern.match_pattern(target),
            TokenPattern::Eq(pattern) => pattern.match_pattern(target),
        }
    }
}

impl Shown for TokenPattern {
    open spec fn shown(&self) -> Seq<char> {
        match self {
            TokenPattern::Wildcard(pattern) => pattern.shown(),
            TokenPattern::Eq(pattern) => pattern.shown(),
        }
    }

    fn to_string(&self) -> (text: String) {
        match self {
            TokenPattern::Wildcard(pattern) => pattern.to_string(),
            TokenPattern::Eq(pattern) => pattern.to_string(),
        }
    }
}

/// An equality pattern at the head accepts no hole for a head, whatever its
/// token and whatever the children; a wildcard at the head accepts the absence of
/// a head, so that only the declared children decide. A hole is never accepted.
/// Matching a builder answers as stated for each of these head patterns.
pub proof fn lemma_token_hole_probe(
    equality: ExprPattern<EqPattern<Token>>,
    wildcard: ExprPattern<WildcardPattern>,
    either: ExprPattern<TokenPattern>,
    builder: Builder<Token>,
)
    ensures
        builder is BTokenHole ==> !equality.matches_builder(&builder),
        builder is BTokenHole ==> (wildcard.matches_builder(&builder) <==> wildcard.matches_builders(
            builder->child_exprs@,
        )),
        builder is BTokenHole && either.head_token is Eq ==> !either.matches_builder(&builder),
        builder is BTokenHole && either.head_token is Wildcard ==> (either.matches_builder(&builder)
            <==> either.matches_builders(builder->child_exprs@)),
        builder is BHole ==> !equality.matches_builder(&builder) && !wildcard.matches_builder(
            &builder,
        ) && !either.matches_builder(&builder),
        <ExprPattern<EqPattern<Token>> as Pattern<Builder<Token>>>::obeys_match_spec(),
        <ExprPattern<WildcardPattern> as Pattern<Builder<Token>>>::obeys_match_spec(),
        <ExprPattern<TokenPattern> as Pattern<Builder<Token>>>::obeys_match_spec(),
{
}

} // verus!
