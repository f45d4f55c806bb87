//! Cursors into expressions under construction.

use vstd::prelude::*;
use crate::exprs::{leaf, Expr};
use crate::exprs::builders::{sketches, Builder, Sketch};
use crate::tokens::Token;

verus! {

/// View into the expression under construction by a builder. A lens points at one
/// position of the builder and moves downwards only.
///
/// In contracts, `target()` is the builder at that position as it is now, and
/// `*final(lens.0)` is the builder that the position holds once the lens is gone.
/// Every operation leaves the lens at its position.
pub struct Lens<'a, T = Token>(pub &'a mut Builder<T>);

impl<'a, T> View for Lens<'a, T> {
    type V = Sketch<T>;

    open spec fn view(&self) -> Sketch<T> {
        self.target()@
    }
}

impl<'a, T> Lens<'a, T> {
    /// The builder that the lens points at, as it is now.
    pub open spec fn target(&self) -> Builder<T> {
        *self.0
    }

    /// Constructs a new Lens pointing at the root of the expression under
    /// construction by `builder`.
    pub fn from_builder(builder: &'a mut Builder<T>) -> (out: Self)
        ensures
            out.target() == *old(builder),
            *final(out.0) == *final(builder),
    {
        Lens(builder)
    }

    /// Tests that `self` is pointing to a hole.
    pub fn is_hole(&self) -> (out: bool)
        ensures
            out == self@.is_hole(),
    {
        self.0.is_hole()
    }

    /// Replaces the builder being pointed at with `builder` and returns the
    /// builder that was being pointed at.
    pub fn replace_builder(&mut self, builder: Builder<T>) -> (out: Builder<T>)
        ensures
            out == old(self).target(),
            final(self).target() == builder,
            *final(final(self).0) == *final(old(self).0),
    {
        let mut builder = builder;
        std::mem::swap(self.0, &mut builder);
        builder
    }

    /// Fills the hole with `builder`.
    pub fn fill_builder(&mut self, builder: Builder<T>) -> (out: &mut Self)
        requires
            old(self)@.is_hole(),
        ensures
            out.target() == builder,
            *final(out.0) == *final(old(self).0),
            *final(self) == *final(out),
    {
        *self.0 = builder;
        self
    }

    /// Fills the hole with `expr`.
    pub fn fill_expr(&mut self, expr: Expr<T>) -> (out: &mut Self)
        requires
            old(self)@.is_hole(),
        ensures
            out.target() == Builder::BExpr(expr),
            *final(out.0) == *final(old(self).0),
            *final(self) == *final(out),
    {
        self.fill_builder(Builder::from_expr(expr))
    }

    /// Fills the hole with the childless expression of `token`.
    pub fn fill_token(&mut self, token: T) -> (out: &mut Self)
        requires
            old(self)@.is_hole(),
        ensures
            out.target() is BExpr,
            out@ == leaf(token).sketch(),
            *final(out.0) == *final(old(self).0),
            *final(self) == *final(out),
    {
        self.fill_expr(Expr::from_token(token))
    }

    /// Adds a child to the expression. A finished expression is first turned into
    /// an expression under construction.
    pub fn push_builder(&mut self, builder: Builder<T>) -> (out: &mut Self)
        requires
            !(old(self)@ is Hole),
        ensures
            old(self).target().opens_to(&out.target()),
            out.target().child_builders() == old(self).target().child_builders().push(builder),
            out@ == old(self)@.with_children(old(self)@.children().push(builder@)),
            old(self).target() is BTokenHole ==> out.target() is BTokenHole,
            !(old(self).target() is BTokenHole) ==> out.target() is BPart,
            *final(out.0) == *final(old(self).0),
            *final(self) == *final(out),
    {
        self.0.push_child(builder);
        self
    }

    /// Adds a finished child to the expression. A finished expression is first
    /// turned into an expression under construction.
    pub fn push_expr(&mut self, expr: Expr<T>) -> (out: &mut Self)
        requires
            !(old(self)@ is Hole),
        ensures
            old(self).target().opens_to(&out.target()),
            out.target().child_builders() == old(self).target().child_builders().push(
                Builder::BExpr(expr),
            ),
            out@ == old(self)@.with_children(old(self)@.children().push(expr@.sketch())),
            old(self).target() is BTokenHole ==> out.target() is BTokenHole,
            !(old(self).target() is BTokenHole) ==> out.target() is BPart,
            *final(out.0) == *final(old(self).0),
            *final(self) == *final(out),
    {
        self.0.push_expr(expr);
        self
    }

    /// Adds the childless expression of `token` as a child to the expression. A
    /// finished expression is first turned into an expression under construction.
    pub fn push_token(&mut self, token: T) -> (out: &mut Self)
        requires
            !(old(self)@ is Hole),
        ensures
            old(self).target().opens_to(&out.target()),
            out.target().child_builders().len() == old(self).target().child_builders().len() + 1,
            out.target().child_builders().drop_last() == old(self).target().child_builders(),
            out.target().child_builders().last().is_leaf(token),
            out@ == old(self)@.with_children(old(self)@.children().push(leaf(token).sketch())),
            old(self).target() is BTokenHole ==> out.target() is BTokenHole,
            !(old(self).target() is BTokenHole) ==> out.target() is BPart,
            *final(out.0) == *final(old(self).0),
            *final(self) == *final(out),
    {
        self.0.push_token(token);
        self
    }

    /// Returns a Lens pointing at the child at `child_index`. A finished
    /// expression is first turned into an expression under construction.
    pub fn visit_child(&'a mut self, child_index: usize) -> (out: Lens<'a, T>)
        requires
            !(old(self)@ is Hole),
            child_index < old(self)@.children().len(),
        ensures
            match old(self).target() {
                Builder::BTokenHole { child_exprs, .. } => out.target()
                    == child_exprs@[child_index as int],
                Builder::BExpr(expr) => out.target() == Builder::BExpr(
                    expr.child_exprs@[child_index as int],
                ),
                Builder::BPart(node) => out.target() == node.children@[child_index as int],
                Builder::BHole => false,
            },
            out@ == old(self)@.children()[child_index as int],
            final(self)@ == old(self)@.with_children(
                old(self)@.children().update(child_index as int, final(out.0)@),
            ),
            old(self).target() is BTokenHole ==> final(self).target() is BTokenHole,
            !(old(self).target() is BTokenHole) ==> final(self).target() is BPart,
            *final(final(self).0) == *final(old(self).0),
    {
        let children = self.0.child_exprs();
        let ghost before = children@;
        let out = Lens(&mut children[child_index]);
        proof {
            assert(sketches(before.update(child_index as int, *final(out.0))) =~= sketches(
                before,
            ).update(child_index as int, final(out.0)@));
        }
        out
    }
}

impl<'a> Lens<'a, Token> {
    /// Adds the childless expression of the text `token` as a child to the
    /// expression. A finished expression is first turned into an expression under
    /// construction.
    pub fn push_str(&mut self, token: &str) -> (out: &mut Self)
        requires
            !(old(self)@ is Hole),
        ensures
            old(self).target().opens_to(&out.target()),
            out.target().child_builders().len() == old(self).target().child_builders().len() + 1,
            out.target().child_builders().drop_last() == old(self).target().child_builders(),
            exists|head: Token|
                head@ == token@ && out.target().child_builders().last().is_leaf(head) && out@
                    == old(self)@.with_children(
                    old(self)@.children().push(#[trigger] leaf(head).sketch()),
                ),
            old(self).target() is BTokenHole ==> out.target() is BTokenHole,
            !(old(self).target() is BTokenHole) ==> out.target() is BPart,
            *final(out.0) == *final(old(self).0),
            *final(self) == *final(out),
    {
        self.0.push_str(token);
        self
    }
}

impl<T> Builder<T> {
    /// Constructs a Lens pointing at `self`.
    pub fn lens(&mut self) -> (out: Lens<'_, T>)
        ensures
            out.target() == *old(self),
            *final(out.0) == *final(self),
    {
        Lens::from_builder(self)
    }
}

} // verus!
