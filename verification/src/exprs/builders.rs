//! Builders of expressions: trees under construction, with holes.

use vstd::prelude::*;
use vstd::std_specs::cmp::PartialEqSpec;
use crate::exprs::{
    default_fmt, leaf, lemma_tree_eq_reflexive, tree_cloned, tree_eq, trees, Expr, FmtExpr, Tree,
};
use crate::exprs::builders::nodes::Node;
use crate::tokens::Token;


pub mod lenses;
pub mod nodes;

verus! {

/// The mathematical model of a builder: a tree in which some positions are still
/// undecided. A finished expression and a part with the same content have the
/// same sketch.
pub ghost enum Sketch<T> {
    /// Nothing is known of this position.
    Hole,
    /// The children are known, the head is not.
    TokenHole { fmt: FmtExpr, children: Seq<Sketch<T>> },
    /// The head is known; the children may still hold holes.
    Node { head: T, fmt: FmtExpr, children: Seq<Sketch<T>> },
}

impl<T> Sketch<T> {
    /// No position of the sketch is a hole.
    pub open spec fn complete(self) -> bool
        decreases self,
    {
        match self {
            Sketch::Node { children, .. } => all_complete(children),
            _ => false,
        }
    }

    /// The tree that a complete sketch stands for.
    pub open spec fn tree(self) -> Tree<T>
        recommends
            self.complete(),
        decreases self,
    {
        match self {
            Sketch::Node { head, fmt, children } => Tree {
                head,
                fmt,
                children: sketch_trees(children),
            },
            _ => arbitrary(),
        }
    }

    /// The head is still undecided.
    pub open spec fn is_hole(self) -> bool {
        self is Hole || self is TokenHole
    }

    /// The children of the sketch; a hole has none.
    pub open spec fn children(self) -> Seq<Sketch<T>> {
        match self {
            Sketch::Hole => Seq::empty(),
            Sketch::TokenHole { children, .. } => children,
            Sketch::Node { children, .. } => children,
        }
    }

    /// The sketch with `children` in place of its own; a hole stays a hole.
    pub open spec fn with_children(self, children: Seq<Sketch<T>>) -> Sketch<T> {
        match self {
            Sketch::Hole => Sketch::Hole,
            Sketch::TokenHole { fmt, .. } => Sketch::TokenHole { fmt, children },
            Sketch::Node { head, fmt, .. } => Sketch::Node { head, fmt, children },
        }
    }
}

/// Every sketch of `sketches` is complete.
pub open spec fn all_complete<T>(sketches: Seq<Sketch<T>>) -> bool
    decreases sketches,
{
    forall|i: int| 0 <= i < sketches.len() ==> (#[trigger] sketches[i]).complete()
}

/// The trees of `sketches`, in order.
pub open spec fn sketch_trees<T>(sketches: Seq<Sketch<T>>) -> Seq<Tree<T>>
    decreases sketches,
{
    Seq::new(
        sketches.len(),
        |i: int|
            if 0 <= i < sketches.len() {
                sketches[i].tree()
            } else {
                arbitrary()
            },
    )
}

impl<T> Tree<T> {
    /// The tree seen as a sketch without holes.
    pub open spec fn sketch(self) -> Sketch<T>
        decreases self,
    {
        Sketch::Node { head: self.head, fmt: self.fmt, children: tree_sketches(self.children) }
    }
}

/// The sketches of `trees`, in order.
pub open spec fn tree_sketches<T>(trees: Seq<Tree<T>>) -> Seq<Sketch<T>>
    decreases trees,
{
    Seq::new(
        trees.len(),
        |i: int|
            if 0 <= i < trees.len() {
                trees[i].sketch()
            } else {
                arbitrary()
            },
    )
}

/// A tree seen as a sketch is complete and stands for that tree.
pub proof fn lemma_tree_sketch<T>(tree: Tree<T>)
    ensures
        tree.sketch().complete(),
        tree.sketch().tree() == tree,
    decreases tree,
{
    let sketches = tree_sketches(tree.children);
    assert forall|i: int| 0 <= i < sketches.len() implies (#[trigger] sketches[i]).complete()
        && sketches[i].tree() == tree.children[i] by {
        lemma_tree_sketch(tree.children[i]);
    }
    assert(sketch_trees(sketches) =~= tree.children);
}

/// The tree of a complete sketch, seen as a sketch, is that sketch.
pub proof fn lemma_sketch_tree<T>(sketch: Sketch<T>)
    requires
        sketch.complete(),
    ensures
        sketch.tree().sketch() == sketch,
    decreases sketch,
{
    let children = sketch->Node_children;
    assert forall|i: int| 0 <= i < children.len() implies (#[trigger] children[i]).tree().sketch()
        == children[i] by {
        lemma_sketch_tree(children[i]);
    }
    assert(tree_sketches(sketch_trees(children)) =~= children);
}

/// Builder of expressions.
#[derive(Debug)]
pub enum Builder<T = Token> {
    /// Hole to be filled with an expression.
    BHole,
    /// Hole to be filled with a head token.
    BTokenHole {
        /// Child expressions of this expression.
        child_exprs: Vec<Builder<T>>,
        /// Formatting method used to display the expression.
        fmt_expr: FmtExpr,
    },
    /// Finished expression.
    BExpr(Expr<T>),
    /// Expression under construction.
    BPart(Node<T>),
}

/// The sketches of `builders`, in order.
pub open spec fn sketches<T>(builders: Seq<Builder<T>>) -> Seq<Sketch<T>>
    decreases builders,
{
    Seq::new(
        builders.len(),
        |i: int|
            if 0 <= i < builders.len() {
                builders[i].sketch()
            } else {
                arbitrary()
            },
    )
}

impl<T> View for Builder<T> {
    type V = Sketch<T>;

    open spec fn view(&self) -> Sketch<T> {
        self.sketch()
    }
}

impl<T> Builder<T> {
    /// The model of this builder.
    pub open spec fn sketch(&self) -> Sketch<T>
        decreases self,
    {
        match self {
            Builder::BHole => Sketch::Hole,
            Builder::BTokenHole { child_exprs, fmt_expr } => Sketch::TokenHole {
                fmt: *fmt_expr,
                children: sketches(child_exprs@),
            },
            Builder::BExpr(expr) => expr@.sketch(),
            Builder::BPart(node) => Sketch::Node {
                head: node.head_token,
                fmt: node.fmt,
                children: sketches(node.children@),
            },
        }
    }

    /// The child builders as `child_exprs` hands them out: those of a hole for a
    /// head or of a part as they are, and the children of a finished expression
    /// each as a finished builder. A hole has none.
    pub open spec fn child_builders(&self) -> Seq<Builder<T>> {
        match self {
            Builder::BHole => Seq::empty(),
            Builder::BTokenHole { child_exprs, .. } => child_exprs@,
            Builder::BExpr(expr) => Seq::new(
                expr.child_exprs@.len(),
                |i: int| Builder::BExpr(expr.child_exprs@[i]),
            ),
            Builder::BPart(node) => node.children@,
        }
    }

    /// `opened` is what `self` becomes when its children are to be changed: a
    /// hole for a head stays one with its formatting method, and a finished
    /// expression or a part is a part with the same head and formatting method.
    pub open spec fn opens_to(&self, opened: &Builder<T>) -> bool {
        match self {
            Builder::BHole => false,
            Builder::BTokenHole { fmt_expr, .. } => *opened is BTokenHole && opened->fmt_expr
                == *fmt_expr,
            Builder::BExpr(expr) => *opened is BPart && opened->BPart_0.head_token
                == expr.head_token && opened->BPart_0.fmt == expr.fmt_expr,
            Builder::BPart(node) => *opened is BPart && opened->BPart_0.head_token
                == node.head_token && opened->BPart_0.fmt == node.fmt,
        }
    }

    /// `self` holds the finished childless expression of `head_token`, displayed
    /// the default way.
    pub open spec fn is_leaf(&self, head_token: T) -> bool {
        &&& *self is BExpr
        &&& self->BExpr_0.head_token == head_token
        &&& self->BExpr_0.child_exprs@.len() == 0
        &&& self->BExpr_0.fmt_expr == default_fmt()
    }

    /// Constructs a hole to be filled.
    pub fn hole() -> (out: Self)
        ensures
            out is BHole,
    {
        Builder::BHole
    }

    /// Constructs a builder which holds the finished `expr`.
    pub fn from_expr(expr: Expr<T>) -> (out: Self)
        ensures
            out == Builder::BExpr(expr),
    {
        Builder::BExpr(expr)
    }

    /// Constructs a builder which holds the childless expression of `head_token`.
    pub fn from_token(head_token: T) -> (out: Self)
        ensures
            out is BExpr,
            out->BExpr_0.head_token == head_token,
            out@ == leaf(head_token).sketch(),
    {
        Builder::BExpr(Expr::from_token(head_token))
    }

    /// Constructs an expression without a head and without children, displayed
    /// the default way.
    pub fn new() -> (out: Self)
        ensures
            out is BTokenHole,
            out@ == (Sketch::TokenHole { fmt: default_fmt(), children: Seq::<Sketch<T>>::empty() }),
    {
        let out = Builder::BTokenHole { child_exprs: Vec::new(), fmt_expr: FmtExpr::default() };
        assert(sketches(Seq::<Builder<T>>::empty()) =~= Seq::<Sketch<T>>::empty());
        out
    }

    /// Tests if this builder is a hole to be filled.
    pub fn is_hole(&self) -> (out: bool)
        ensures
            out == (self is BHole || self is BTokenHole),
            out == self@.is_hole(),
    {
        match self {
            Builder::BHole => true,
            Builder::BTokenHole { .. } => true,
            _ => false,
        }
    }

    /// Tests if this builder has child expressions.
    pub fn has_children(&self) -> (out: bool)
        ensures
            out == !(self is BHole),
            out == !(self@ is Hole),
    {
        match self {
            Builder::BHole => false,
            _ => true,
        }
    }

    /// Takes the head token of the expression and leaves a hole for it, keeping the
    /// children and the formatting method. A builder without a head is left as it is.
    pub fn take_token(&mut self) -> (out: Option<T>)
        ensures
            match *old(self) {
                Builder::BExpr(expr) => out == Some(expr.head_token) && *final(self) is BTokenHole
                    && final(self)->fmt_expr == expr.fmt_expr && final(self)->child_exprs@.len()
                    == expr.child_exprs@.len() && forall|i: int|
                    0 <= i < expr.child_exprs@.len() ==> #[trigger] final(self)->child_exprs@[i]
                        == Builder::BExpr(expr.child_exprs@[i]),
                Builder::BPart(node) => out == Some(node.head_token) && *final(self) == (
                Builder::BTokenHole { child_exprs: node.children, fmt_expr: node.fmt }),
                _ => out is None && *final(self) == *old(self),
            },
            match old(self)@ {
                Sketch::Node { fmt, children, .. } => *final(self) is BTokenHole && final(self)@ == (
                Sketch::TokenHole { fmt, children }),
                _ => final(self)@ == old(self)@,
            },
    {
        if self.is_hole() {
            return None;
        }
        let mut taken = Builder::BHole;
        std::mem::swap(self, &mut taken);
        let node = match taken {
            Builder::BExpr(expr) => Node::from_expr(expr),
            Builder::BPart(node) => node,
            _ => unreached(),
        };
        let (head_token, child_exprs, fmt_expr) = node.into_inner();
        *self = Builder::BTokenHole { child_exprs, fmt_expr };
        Some(head_token)
    }

    /// Sets the head token of the expression and returns the old one. A hole for a
    /// head becomes an expression under construction with the same children; a
    /// hole without children is left as it is.
    pub fn set_token(&mut self, token: T) -> (out: Option<T>)
        ensures
            match *old(self) {
                Builder::BHole => out is None && *final(self) is BHole,
                Builder::BTokenHole { child_exprs, fmt_expr } => out is None && *final(self)
                    == Builder::BPart(Node { head_token: token, children: child_exprs, fmt: fmt_expr }),
                Builder::BExpr(expr) => out == Some(expr.head_token) && *final(self)
                    == Builder::BExpr(Expr { head_token: token, ..expr }),
                Builder::BPart(node) => out == Some(node.head_token) && *final(self)
                    == Builder::BPart(Node { head_token: token, ..node }),
            },
            match old(self)@ {
                Sketch::Hole => final(self)@ is Hole,
                Sketch::TokenHole { fmt, children } => final(self)@ == (Sketch::Node {
                    head: token,
                    fmt,
                    children,
                }),
                Sketch::Node { fmt, children, .. } => final(self)@ == (Sketch::Node {
                    head: token,
                    fmt,
                    children,
                }),
            },
    {
        let mut token = token;
        let mut taken = Builder::BHole;
        std::mem::swap(self, &mut taken);
        match taken {
            Builder::BHole => None,
            Builder::BTokenHole { child_exprs, fmt_expr } => {
                *self = Builder::BPart(Node::from_parts(token, child_exprs, fmt_expr));
                None
            },
            Builder::BExpr(expr) => {
                let mut expr = expr;
                std::mem::swap(&mut expr.head_token, &mut token);
                *self = Builder::BExpr(expr);
                Some(token)
            },
            Builder::BPart(node) => {
                let mut node = node;
                std::mem::swap(&mut node.head_token, &mut token);
                *self = Builder::BPart(node);
                Some(token)
            },
        }
    }

    /// Gets the child expressions under construction. A finished expression is
    /// first turned into an expression under construction with the same head,
    /// children and formatting method.
    pub fn child_exprs(&mut self) -> (out: &mut Vec<Builder<T>>)
        requires
            !(*old(self) is BHole),
        ensures
            match *old(self) {
                Builder::BTokenHole { child_exprs, fmt_expr } => *out == child_exprs && *final(self)
                    == (Builder::BTokenHole { child_exprs: *final(out), fmt_expr }),
                Builder::BExpr(expr) => out@.len() == expr.child_exprs@.len() && (forall|i: int|
                    0 <= i < out@.len() ==> #[trigger] out@[i] == Builder::BExpr(
                        expr.child_exprs@[i],
                    )) && *final(self) == Builder::BPart(
                    Node { head_token: expr.head_token, children: *final(out), fmt: expr.fmt_expr },
                ),
                Builder::BPart(node) => *out == node.children && *final(self) == Builder::BPart(
                    Node { children: *final(out), ..node },
                ),
                Builder::BHole => false,
            },
            sketches(out@) == old(self)@.children(),
            final(self)@ == old(self)@.with_children(sketches(final(out)@)),
    {
        if let Builder::BExpr(_) = self {
            let mut taken = Builder::BHole;
            std::mem::swap(self, &mut taken);
            match taken {
                Builder::BExpr(expr) => {
                    *self = Builder::BPart(Node::from_expr(expr));
                },
                _ => {},
            }
        }
        match self {
            Builder::BTokenHole { child_exprs, .. } => child_exprs,
            Builder::BPart(node) => &mut node.children,
            _ => unreached(),
        }
    }

    /// Pushes a child expression. A finished expression is first turned into an
    /// expression under construction, as by `child_exprs`.
    pub fn push_child(&mut self, child: Builder<T>) -> (out: &mut Self)
        requires
            !(*old(self) is BHole),
        ensures
            old(self).opens_to(&*out),
            out.child_builders() == old(self).child_builders().push(child),
            out@ == old(self)@.with_children(old(self)@.children().push(child@)),
            *old(self) is BTokenHole ==> *out is BTokenHole,
            !(*old(self) is BTokenHole) ==> *out is BPart,
            *final(self) == *final(out),
    {
        let children = self.child_exprs();
        let ghost before = children@;
        children.push(child);
        assert(sketches(children@) =~= sketches(before).push(child@));
        self
    }

    /// Pushes a finished child expression. A finished expression is first turned
    /// into an expression under construction, as by `child_exprs`.
    pub fn push_expr(&mut self, child: Expr<T>) -> (out: &mut Self)
        requires
            !(*old(self) is BHole),
        ensures
            old(self).opens_to(&*out),
            out.child_builders() == old(self).child_builders().push(Builder::BExpr(child)),
            out@ == old(self)@.with_children(old(self)@.children().push(child@.sketch())),
            *old(self) is BTokenHole ==> *out is BTokenHole,
            !(*old(self) is BTokenHole) ==> *out is BPart,
            *final(self) == *final(out),
    {
        self.push_child(Builder::BExpr(child))
    }

    /// Pushes a token as a childless child expression. A finished expression is
    /// first turned into an expression under construction, as by `child_exprs`.
    pub fn push_token(&mut self, token: T) -> (out: &mut Self)
        requires
            !(*old(self) is BHole),
        ensures
            old(self).opens_to(&*out),
            out.child_builders().len() == old(self).child_builders().len() + 1,
            out.child_builders().drop_last() == old(self).child_builders(),
            out.child_builders().last().is_leaf(token),
            out@ == old(self)@.with_children(old(self)@.children().push(leaf(token).sketch())),
            *old(self) is BTokenHole ==> *out is BTokenHole,
            !(*old(self) is BTokenHole) ==> *out is BPart,
            *final(self) == *final(out),
    {
        let child = Expr::from_token(token);
        let ghost before = self.child_builders();
        let out = self.push_expr(child);
        assert(before.push(Builder::BExpr(child)).drop_last() =~= before);
        out
    }

    /// Tests that `self` contains no holes.
    pub fn can_finish(&self) -> (out: bool)
        ensures
            out == self@.complete(),
        decreases self,
    {
        match self {
            Builder::BHole => false,
            Builder::BTokenHole { .. } => false,
            Builder::BExpr(expr) => {
                proof {
                    lemma_tree_sketch(expr@);
                }
                true
            },
            Builder::BPart(node) => node.can_finish(),
        }
    }

    /// Constructs the expression if no hole is left, and leaves a hole behind.
    /// Where a hole is left anywhere in the builder, nothing is returned and the
    /// builder keeps everything it held.
    #[verifier::loop_isolation(false)]
    pub fn finish(&mut self) -> (out: Option<Expr<T>>)
        ensures
            match out {
                Some(expr) => old(self)@.complete() && expr@ == old(self)@.tree()
                    && *final(self) is BHole,
                None => !old(self)@.complete() && final(self)@ == old(self)@,
            },
            *old(self) is BHole || *old(self) is BTokenHole ==> *final(self) == *old(self),
            out is None && *old(self) is BPart ==> *final(self) is BPart,
        decreases *old(self),
    {
        if self.is_hole() {
            return None;
        }
        let mut taken = Builder::BHole;
        std::mem::swap(self, &mut taken);
        match taken {
            Builder::BExpr(expr) => {
                proof {
                    lemma_tree_sketch(expr@);
                }
                Some(expr)
            },
            Builder::BPart(node) => {
                let Node { head_token, children, fmt } = node;
                let ghost before = children;
                let mut children = children;
                let mut child_exprs: Vec<Expr<T>> = Vec::new();
                let mut failed = false;
                while !failed && child_exprs.len() < children.len()
                    invariant
                        children@.len() == before@.len(),
                        child_exprs@.len() <= children@.len(),
                        failed ==> child_exprs@.len() < children@.len(),
                        forall|i: int|
                            0 <= i < child_exprs@.len() ==> (#[trigger] sketches(
                                before@,
                            )[i]).complete() && child_exprs@[i]@ == sketches(before@)[i].tree(),
                        forall|i: int|
                            child_exprs@.len() < i < children@.len() ==> children@[i] == before@[i],
                        !failed && child_exprs@.len() < children@.len() ==> children@[child_exprs@.len() as int]
                            == before@[child_exprs@.len() as int],
                        failed ==> !sketches(before@)[child_exprs@.len() as int].complete(),
                        failed ==> children@[child_exprs@.len() as int]@
                            == before@[child_exprs@.len() as int]@,
                    decreases children@.len() - child_exprs@.len(), if failed { 0nat } else { 1nat },
                {
                    let index = child_exprs.len();
                    assert(children@[index as int] == before[index as int]);
                    match children[index].finish() {
                        Some(expr) => {
                            child_exprs.push(expr);
                        },
                        None => {
                            failed = true;
                        },
                    }
                }
                if !failed {
                    let expr = Expr::from_parts(head_token, child_exprs, fmt);
                    proof {
                        assert(trees(expr.child_exprs@) =~= sketch_trees(sketches(before@)));
                    }
                    return Some(expr);
                }
                let ghost stuck = child_exprs@.len() as int;
                while child_exprs.len() > 0
                    invariant
                        children@.len() == before@.len(),
                        child_exprs@.len() <= stuck < children@.len(),
                        forall|i: int|
                            0 <= i < child_exprs@.len() ==> (#[trigger] sketches(
                                before@,
                            )[i]).complete() && child_exprs@[i]@ == sketches(before@)[i].tree(),
                        forall|i: int|
                            child_exprs@.len() <= i < children@.len() ==> (
                            #[trigger] children@[i])@ == before@[i]@,
                    decreases child_exprs@.len(),
                {
                    let index = child_exprs.len() - 1;
                    let expr = child_exprs.pop().unwrap();
                    proof {
                        lemma_sketch_tree(sketches(before@)[index as int]);
                    }
                    children.set(index, Builder::BExpr(expr));
                }
                proof {
                    assert(sketches(children@) =~= sketches(before@));
                    assert(!all_complete(sketches(before@)));
                }
                *self = Builder::BPart(Node { head_token, children, fmt });
                None
            },
            _ => unreached(),
        }
    }

    /// Constructs the expression of a builder without holes.
    pub fn into_expr(self) -> (out: Expr<T>)
        requires
            self@.complete(),
        ensures
            out@ == self@.tree(),
    {
        let mut builder = self;
        match builder.finish() {
            Some(expr) => expr,
            None => unreached(),
        }
    }
}

impl Builder<Token> {
    /// Constructs a builder which holds the childless expression of the text `token`.
    pub fn from_str(token: &str) -> (out: Self)
        ensures
            out is BExpr,
            out->BExpr_0.head_token@ == token@,
            out@ == leaf(out->BExpr_0.head_token).sketch(),
    {
        Builder::BExpr(Expr::from_str(token))
    }

    /// Pushes text as a childless child expression. A finished expression is
    /// first turned into an expression under construction, as by `child_exprs`.
    pub fn push_str(&mut self, token: &str) -> (out: &mut Self)
        requires
            !(*old(self) is BHole),
        ensures
            old(self).opens_to(&*out),
            out.child_builders().len() == old(self).child_builders().len() + 1,
            out.child_builders().drop_last() == old(self).child_builders(),
            exists|head: Token|
                head@ == token@ && out.child_builders().last().is_leaf(head) && out@ == old(
                    self,
                )@.with_children(old(self)@.children().push(#[trigger] leaf(head).sketch())),
            *old(self) is BTokenHole ==> *out is BTokenHole,
            !(*old(self) is BTokenHole) ==> *out is BPart,
            *final(self) == *final(out),
    {
        self.push_token(Token::from_str(token))
    }
}

/// `copy` is a clone of `source`: the same sketch with every head cloned.
pub open spec fn sketch_cloned<T: Clone>(source: Sketch<T>, copy: Sketch<T>) -> bool
    decreases source,
{
    match source {
        Sketch::Hole => copy is Hole,
        Sketch::TokenHole { fmt, children } => copy is TokenHole && copy->TokenHole_fmt == fmt
            && sketches_cloned(children, copy->TokenHole_children),
        Sketch::Node { head, fmt, children } => copy is Node && cloned(head, copy->head)
            && copy->Node_fmt == fmt && sketches_cloned(children, copy->Node_children),
    }
}

/// Each of `copies` is a clone of the sketch in its place in `sources`.
pub open spec fn sketches_cloned<T: Clone>(sources: Seq<Sketch<T>>, copies: Seq<Sketch<T>>) -> bool
    decreases sources,
{
    &&& sources.len() == copies.len()
    &&& forall|i: int|
        0 <= i < sources.len() ==> sketch_cloned(#[trigger] sources[i], copies[i])
}

/// The clone of a tree, seen as a sketch, is a clone of the tree seen as a sketch.
pub proof fn lemma_tree_cloned_sketch<T: Clone>(source: Tree<T>, copy: Tree<T>)
    requires
        tree_cloned(source, copy),
    ensures
        sketch_cloned(source.sketch(), copy.sketch()),
    decreases source,
{
    let sources = tree_sketches(source.children);
    let copies = tree_sketches(copy.children);
    assert forall|i: int| 0 <= i < sources.len() implies sketch_cloned(
        #[trigger] sources[i],
        copies[i],
    ) by {
        assert(tree_cloned(source.children[i], copy.children[i]));
        lemma_tree_cloned_sketch(source.children[i], copy.children[i]);
    }
}

/// Clones every builder of `builders`.
fn clone_all<T: Clone>(builders: &Vec<Builder<T>>) -> (out: Vec<Builder<T>>)
    ensures
        sketches_cloned(sketches(builders@), sketches(out@)),
    decreases builders,
{
    let mut out: Vec<Builder<T>> = Vec::new();
    let mut index: usize = 0;
    while index < builders.len()
        invariant
            index <= builders.len(),
            out@.len() == index,
            forall|i: int| 0 <= i < index ==> sketch_cloned(builders[i]@, (#[trigger] out@[i])@),
        decreases builders.len() - index,
    {
        let builder = builders[index].clone();
        out.push(builder);
        index += 1;
    }
    assert forall|i: int| 0 <= i < builders@.len() implies sketch_cloned(
        #[trigger] sketches(builders@)[i],
        sketches(out@)[i],
    ) by {
        assert(sketch_cloned(builders[i]@, out@[i]@));
    }
    out
}

impl<T: Clone> Clone for Node<T> {
    fn clone(&self) -> (out: Self)
        ensures
            sketch_cloned(self@, out@),
        decreases self,
    {
        Node {
            head_token: self.head_token.clone(),
            children: clone_all(&self.children),
            fmt: self.fmt,
        }
    }
}

impl<T: Clone> Clone for Builder<T> {
    fn clone(&self) -> (out: Self)
        ensures
            sketch_cloned(self@, out@),
            self is BHole <==> out is BHole,
            self is BTokenHole <==> out is BTokenHole,
            self is BExpr <==> out is BExpr,
            self is BPart <==> out is BPart,
        decreases self,
    {
        match self {
            Builder::BHole => Builder::BHole,
            Builder::BTokenHole { child_exprs, fmt_expr } => Builder::BTokenHole {
                child_exprs: clone_all(child_exprs),
                fmt_expr: *fmt_expr,
            },
            Builder::BExpr(expr) => {
                let copy = expr.clone();
                proof {
                    lemma_tree_cloned_sketch(expr@, copy@);
                }
                Builder::BExpr(copy)
            },
            Builder::BPart(node) => Builder::BPart(node.clone()),
        }
    }
}

impl<T1> Builder<T1> {
    /// Compares a partially built expression against an expression: they are
    /// equal when the builder holds no hole and its content equals the expression.
    #[verifier::loop_isolation(false)]
    pub fn eq_expr<T2>(&self, expr: &Expr<T2>) -> (out: bool) where T1: PartialEq<T2>
        ensures
            T1::obeys_eq_spec() ==> out == (self@.complete() && tree_eq(self@.tree(), expr@)),
            out ==> self@.complete(),
        decreases self,
    {
        match self {
            Builder::BHole => false,
            Builder::BTokenHole { .. } => false,
            Builder::BExpr(lhs) => {
                proof {
                    lemma_tree_sketch(lhs@);
                }
                *lhs == *expr
            },
            Builder::BPart(node) => {
                let ghost lhs = sketches(node.children@);
                if !(node.head_token == expr.head_token) {
                    return false;
                }
                if node.children.len() != expr.child_exprs.len() {
                    return false;
                }
                let mut index: usize = 0;
                while index < node.children.len()
                    invariant
                        index <= node.children.len(),
                        node.children.len() == expr.child_exprs.len(),
                        forall|i: int| 0 <= i < index ==> (#[trigger] lhs[i]).complete(),
                        T1::obeys_eq_spec() ==> forall|i: int|
                            0 <= i < index ==> tree_eq(
                                (#[trigger] lhs[i]).tree(),
                                expr.child_exprs[i]@,
                            ),
                    decreases node.children.len() - index,
                {
                    if !node.children[index].eq_expr(&expr.child_exprs[index]) {
                        proof {
                            let i = index as int;
                            assert(lhs[i] == node.children[i]@);
                            assert(self@.tree().children[i] == lhs[i].tree());
                            assert(expr@.children[i] == expr.child_exprs[i]@);
                        }
                        return false;
                    }
                    index += 1;
                }
                proof {
                    assert(all_complete(lhs));
                    if T1::obeys_eq_spec() {
                        assert forall|i: int| 0 <= i < self@.tree().children.len() implies tree_eq(
                            #[trigger] self@.tree().children[i],
                            expr@.children[i],
                        ) by {
                            assert(self@.tree().children[i] == lhs[i].tree());
                            assert(expr@.children[i] == expr.child_exprs[i]@);
                        }
                    }
                }
                true
            },
        }
    }
}

impl<T1> Expr<T1> {
    /// Compares an expression against a partially built expression: they are
    /// equal when the builder holds no hole and its content equals the expression.
    #[verifier::loop_isolation(false)]
    pub fn eq_builder<T2>(&self, builder: &Builder<T2>) -> (out: bool) where T1: PartialEq<T2>
        ensures
            T1::obeys_eq_spec() ==> out == (builder@.complete() && tree_eq(self@, builder@.tree())),
            out ==> builder@.complete(),
        decreases self,
    {
        match builder {
            Builder::BHole => false,
            Builder::BTokenHole { .. } => false,
            Builder::BExpr(rhs) => {
                proof {
                    lemma_tree_sketch(rhs@);
                }
                *self == *rhs
            },
            Builder::BPart(node) => {
                let ghost rhs = sketches(node.children@);
                if !(self.head_token == node.head_token) {
                    return false;
                }
                if self.child_exprs.len() != node.children.len() {
                    return false;
                }
                let mut index: usize = 0;
                while index < self.child_exprs.len()
                    invariant
                        index <= self.child_exprs.len(),
                        self.child_exprs.len() == node.children.len(),
                        forall|i: int| 0 <= i < index ==> (#[trigger] rhs[i]).complete(),
                        T1::obeys_eq_spec() ==> forall|i: int|
                            0 <= i < index ==> tree_eq(
                                (#[trigger] self.child_exprs[i])@,
                                rhs[i].tree(),
                            ),
                    decreases self.child_exprs.len() - index,
                {
                    if !self.child_exprs[index].eq_builder(&node.children[index]) {
                        proof {
                            let i = index as int;
                            assert(rhs[i] == node.children[i]@);
                            assert(builder@.tree().children[i] == rhs[i].tree());
                            assert(self@.children[i] == self.child_exprs[i]@);
                        }
                        return false;
                    }
                    proof {
                        assert(rhs[index as int] == node.children[index as int]@);
                    }
                    index += 1;
                }
                proof {
                    assert(all_complete(rhs));
                    if T1::obeys_eq_spec() {
                        assert forall|i: int| 0 <= i < self@.children.len() implies tree_eq(
                            #[trigger] self@.children[i],
                            builder@.tree().children[i],
                        ) by {
                            assert(builder@.tree().children[i] == rhs[i].tree());
                            assert(self@.children[i] == self.child_exprs[i]@);
                            assert(tree_eq(self.child_exprs[i]@, rhs[i].tree()));
                        }
                    }
                }
                true
            },
        }
    }
}

impl<T1: PartialEq<T2>, T2> PartialEq<Expr<T2>> for Builder<T1> {
    /// A builder equals an expression when it holds no hole and its content
    /// equals the expression.
    fn eq(&self, rhs: &Expr<T2>) -> (out: bool)
        ensures
            out ==> self@.complete(),
    {
        self.eq_expr(rhs)
    }
}

impl<T1: PartialEq<T2>, T2> vstd::std_specs::cmp::PartialEqSpecImpl<Expr<T2>> for Builder<T1> {
    open spec fn obeys_eq_spec() -> bool {
        T1::obeys_eq_spec()
    }

    open spec fn eq_spec(&self, rhs: &Expr<T2>) -> bool {
        self@.complete() && tree_eq(self@.tree(), rhs@)
    }
}

impl<T1: PartialEq<T2>, T2> PartialEq<Builder<T2>> for Expr<T1> {
    /// An expression equals a builder when the builder holds no hole and its
    /// content equals the expression.
    fn eq(&self, rhs: &Builder<T2>) -> (out: bool)
        ensures
            out ==> rhs@.complete(),
    {
        self.eq_builder(rhs)
    }
}

impl<T1: PartialEq<T2>, T2> vstd::std_specs::cmp::PartialEqSpecImpl<Builder<T2>> for Expr<T1> {
    open spec fn obeys_eq_spec() -> bool {
        T1::obeys_eq_spec()
    }

    open spec fn eq_spec(&self, rhs: &Builder<T2>) -> bool {
        rhs@.complete() && tree_eq(self@, rhs@.tree())
    }
}

impl<T1: PartialEq<T2>, T2> PartialEq<Builder<T2>> for Builder<T1> {
    /// Two builders are equal when neither holds a hole and their contents are
    /// equal. A builder with a hole equals nothing, itself included.
    #[verifier::loop_isolation(false)]
    fn eq(&self, rhs: &Builder<T2>) -> (out: bool)
        ensures
            out ==> self@.complete() && rhs@.complete(),
        decreases self,
    {
        match self {
            Builder::BHole => false,
            Builder::BTokenHole { .. } => false,
            Builder::BExpr(lhs) => {
                proof {
                    lemma_tree_sketch(lhs@);
                }
                return lhs.eq_builder(rhs);
            },
            Builder::BPart(node) => {
                match rhs {
                    Builder::BHole => false,
                    Builder::BTokenHole { .. } => false,
                    Builder::BExpr(expr) => {
                        proof {
                            lemma_tree_sketch(expr@);
                        }
                        return self.eq_expr(expr);
                    },
                    Builder::BPart(other) => {
                        let ghost lhs = sketches(node.children@);
                        let ghost rhs_children = sketches(other.children@);
                        if !(node.head_token == other.head_token) {
                            return false;
                        }
                        if node.children.len() != other.children.len() {
                            return false;
                        }
                        let mut index: usize = 0;
                        while index < node.children.len()
                            invariant
                                index <= node.children.len(),
                                node.children.len() == other.children.len(),
                                forall|i: int|
                                    0 <= i < index ==> (#[trigger] lhs[i]).complete()
                                        && rhs_children[i].complete(),
                                T1::obeys_eq_spec() ==> forall|i: int|
                                    0 <= i < index ==> tree_eq(
                                        (#[trigger] lhs[i]).tree(),
                                        rhs_children[i].tree(),
                                    ),
                            decreases node.children.len() - index,
                        {
                            if !(node.children[index] == other.children[index]) {
                                proof {
                                    let i = index as int;
                                    assert(lhs[i] == node.children[i]@);
                                    assert(rhs_children[i] == other.children[i]@);
                                    assert(self@.tree().children[i] == lhs[i].tree());
                                    assert(rhs@.tree().children[i] == rhs_children[i].tree());
                                }
                                return false;
                            }
                            proof {
                                let i = index as int;
                                assert(lhs[i] == node.children[i]@);
                                assert(rhs_children[i] == other.children[i]@);
                            }
                            index += 1;
                        }
                        proof {
                            assert(all_complete(lhs));
                            assert forall|i: int| 0 <= i < rhs_children.len() implies (
                            #[trigger] rhs_children[i]).complete() by {
                                assert(lhs[i].complete());
                            }
                            if T1::obeys_eq_spec() {
                                assert forall|i: int|
                                    0 <= i < self@.tree().children.len() implies tree_eq(
                                    #[trigger] self@.tree().children[i],
                                    rhs@.tree().children[i],
                                ) by {
                                    assert(lhs[i].complete());
                                    assert(self@.tree().children[i] == lhs[i].tree());
                                    assert(rhs@.tree().children[i] == rhs_children[i].tree());
                                }
                            }
                        }
                        return true;
                    },
                }
            },
        }
    }
}

impl<T1: PartialEq<T2>, T2> vstd::std_specs::cmp::PartialEqSpecImpl<Builder<T2>> for Builder<T1> {
    open spec fn obeys_eq_spec() -> bool {
        T1::obeys_eq_spec()
    }

    open spec fn eq_spec(&self, rhs: &Builder<T2>) -> bool {
        self@.complete() && rhs@.complete() && tree_eq(self@.tree(), rhs@.tree())
    }
}

/// A hole, a hole for a head, and every builder that holds one of them anywhere
/// equals no builder and no expression, and nothing equals it: not even the
/// builder itself.
pub proof fn lemma_hole_never_equal<T: PartialEq>(
    holed: Builder<T>,
    builder: Builder<T>,
    expr: Expr<T>,
)
    requires
        holed is BHole || holed is BTokenHole || !holed@.complete(),
    ensures
        !holed.eq_spec(&holed),
        !holed.eq_spec(&builder),
        !builder.eq_spec(&holed),
        !holed.eq_spec(&expr),
        !expr.eq_spec(&holed),
{
}

/// A builder without holes equals the expression that finishing it gives, and
/// equals every builder without holes that gives an equal expression, where
/// every token equals itself. An expression reopened as a builder, finished or
/// under construction, is without holes and gives the expression back.
pub proof fn lemma_round_trip<T: PartialEq>(builder: Builder<T>, other: Builder<T>, expr: Expr<T>)
    requires
        builder@.complete(),
        forall|token: T| #[trigger] token.eq_spec(&token),
    ensures
        expr@ == builder@.tree() ==> builder.eq_spec(&expr) && expr.eq_spec(&builder),
        other@.complete() && tree_eq(builder@.tree(), other@.tree()) ==> builder.eq_spec(&other),
        Builder::BExpr(expr)@.complete(),
        Builder::BExpr(expr)@.tree() == expr@,
        expr@.sketch().tree() == expr@,
{
    lemma_tree_sketch(expr@);
    lemma_tree_eq_reflexive(builder@.tree());
}

} // verus!
