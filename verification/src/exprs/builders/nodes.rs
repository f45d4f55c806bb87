//! Expressions under construction: a known head over children that may hold holes.

use vstd::prelude::*;
use map_in_place::MapVecInPlace;
use crate::exprs::{trees, Expr, FmtExpr};
use crate::exprs::builders::{sketches, tree_sketches, Builder, Sketch};
use crate::tokens::Token;

verus! {

/// Maps every item of `items` through `f`, reusing the allocation where the two
/// item types allow it.
///
/// Calls `map_in_place::MapVecInPlace::map`. Claimed of it: the result has one
/// item for each item of `items`, in the same order, and each is a value that `f`
/// may return for the item in its place.
#[verifier::external_body]
pub(crate) fn map_vec<A, B, F: Fn(A) -> B>(items: Vec<A>, f: F) -> (out: Vec<B>)
    requires
        forall|i: int| 0 <= i < items@.len() ==> call_requires(f, (#[trigger] items@[i],)),
    ensures
        out@.len() == items@.len(),
        forall|i: int| 0 <= i < items@.len() ==> call_ensures(f, (items@[i],), #[trigger] out@[i]),
{
    MapVecInPlace::map(items, f)
}

/// Expression with partially constructed children.
#[derive(Debug)]
pub struct Node<T = Token> {
    /// Token at the head of the expression.
    pub head_token: T,
    /// Child expressions.
    pub children: Vec<Builder<T>>,
    /// Formatting method of the expression.
    pub fmt: FmtExpr,
}

impl<T> View for Node<T> {
    type V = Sketch<T>;

    open spec fn view(&self) -> Sketch<T> {
        Sketch::Node { head: self.head_token, fmt: self.fmt, children: sketches(self.children@) }
    }
}

impl<T> Node<T> {
    /// Constructs a new Node from parts.
    pub fn from_parts(head_token: T, children: Vec<Builder<T>>, fmt: FmtExpr) -> (out: Self)
        ensures
            out.head_token == head_token,
            out.children == children,
            out.fmt == fmt,
    {
        Node { head_token, children, fmt }
    }

    /// Deconstructs into parts.
    pub fn into_inner(self) -> (out: (T, Vec<Builder<T>>, FmtExpr))
        ensures
            out.0 == self.head_token,
            out.1 == self.children,
            out.2 == self.fmt,
    {
        (self.head_token, self.children, self.fmt)
    }

    /// Constructs a new Node from an expression: the same head and formatting
    /// method, and every child wrapped as a finished builder.
    pub fn from_expr(expr: Expr<T>) -> (out: Self)
        ensures
            out.head_token == expr.head_token,
            out.fmt == expr.fmt_expr,
            out.children@.len() == expr.child_exprs@.len(),
            forall|i: int|
                0 <= i < expr.child_exprs@.len() ==> #[trigger] out.children@[i] == Builder::BExpr(
                    expr.child_exprs@[i],
                ),
            out@ == expr@.sketch(),
    {
        let (head_token, child_exprs, fmt) = expr.into_parts();
        let children = map_vec(child_exprs, Builder::from_expr);
        assert(sketches(children@) =~= tree_sketches(trees(child_exprs@)));
        Node { head_token, children, fmt }
    }

    /// Tests that there are no holes in the expression.
    pub fn can_finish(&self) -> (out: bool)
        ensures
            out == self@.complete(),
        decreases self,
    {
        let mut index: usize = 0;
        while index < self.children.len()
            invariant
                index <= self.children.len(),
                forall|i: int| 0 <= i < index ==> (#[trigger] sketches(self.children@)[i]).complete(),
            decreases self.children.len() - index,
        {
            if !self.children[index].can_finish() {
                assert(!sketches(self.children@)[index as int].complete());
                return false;
            }
            index += 1;
        }
        true
    }

    /// Returns the built expression.
    pub fn finish(self) -> (out: Expr<T>)
        requires
            self@.complete(),
        ensures
            out@ == self@.tree(),
    {
        Builder::BPart(self).into_expr()
    }

    /// Nests a builder at the end of the children.
    pub fn push_builder(&mut self, builder: Builder<T>) -> (out: &mut Self)
        ensures
            out.head_token == old(self).head_token,
            out.fmt == old(self).fmt,
            out.children@ == old(self).children@.push(builder),
            out@ == old(self)@.with_children(old(self)@.children().push(builder@)),
            *final(self) == *final(out),
    {
        self.children.push(builder);
        assert(sketches(self.children@) =~= sketches(old(self).children@).push(builder@));
        self
    }

    /// Adds a finished expression to the end of the children.
    pub fn push_expr(&mut self, expr: Expr<T>) -> (out: &mut Self)
        ensures
            out.head_token == old(self).head_token,
            out.fmt == old(self).fmt,
            out.children@ == old(self).children@.push(Builder::BExpr(expr)),
            out@ == old(self)@.with_children(old(self)@.children().push(expr@.sketch())),
            *final(self) == *final(out),
    {
        self.push_builder(Builder::from_expr(expr))
    }
}

} // verus!
