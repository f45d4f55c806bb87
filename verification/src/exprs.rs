//! Expression trees of tokens.

use vstd::prelude::*;
use vstd::std_specs::cmp::PartialEqSpec;
use crate::nodes::{fmt_node, lay_out, layout, node_text, texts, Shown};
use crate::tokens::Token;

pub mod builders;

verus! {

/// Formatting method of an expression: the delimiters written around and between
/// its children. A childless expression is written as its head alone.
#[derive(Clone, Copy, Debug)]
pub struct FmtExpr {
    /// Written between the head and the first child.
    pub open: &'static str,
    /// Written between two neighbouring children.
    pub separator: &'static str,
    /// Written after the last child.
    pub close: &'static str,
}

/// The default formatting method: `head [child, child, ...]`.
pub open spec fn default_fmt() -> FmtExpr {
    FmtExpr { open: " [", separator: ", ", close: "]" }
}

impl Default for FmtExpr {
    fn default() -> (out: Self)
        ensures
            out == default_fmt(),
    {
        FmtExpr { open: " [", separator: ", ", close: "]" }
    }
}

/// The mathematical model of an expression.
pub ghost struct Tree<T> {
    pub head: T,
    pub fmt: FmtExpr,
    pub children: Seq<Tree<T>>,
}

impl<T> Tree<T> {
    /// The text that displays the tree, every node laid out by its own method.
    pub open spec fn text(self) -> Seq<char> where T: Shown
        decreases self,
    {
        layout(
            self.head.shown(),
            tree_texts(self.children),
            self.fmt.open@,
            self.fmt.separator@,
            self.fmt.close@,
        )
    }

    /// The text that displays the tree when its root is laid out the default way.
    pub open spec fn default_text(self) -> Seq<char> where T: Shown {
        node_text(self.head.shown(), tree_texts(self.children))
    }
}

/// The model of a childless expression displayed the default way.
pub open spec fn leaf<T>(head: T) -> Tree<T> {
    Tree { head, fmt: default_fmt(), children: Seq::empty() }
}

/// The texts of `trees`, in order.
pub open spec fn tree_texts<T: Shown>(trees: Seq<Tree<T>>) -> Seq<Seq<char>>
    decreases trees,
{
    Seq::new(
        trees.len(),
        |i: int|
            if 0 <= i < trees.len() {
                trees[i].text()
            } else {
                arbitrary()
            },
    )
}

/// Two trees are equal: the heads are equal, there are as many children on
/// either side, and the children at each position are equal. The formatting
/// methods do not count.
pub open spec fn tree_eq<T1: PartialEq<T2>, T2>(left: Tree<T1>, right: Tree<T2>) -> bool
    decreases left,
{
    &&& left.head.eq_spec(&right.head)
    &&& left.children.len() == right.children.len()
    &&& forall|i: int|
        0 <= i < left.children.len() ==> tree_eq(#[trigger] left.children[i], right.children[i])
}

/// `copy` is a clone of `source`: the same tree with every head cloned.
pub open spec fn tree_cloned<T: Clone>(source: Tree<T>, copy: Tree<T>) -> bool
    decreases source,
{
    &&& cloned(source.head, copy.head)
    &&& source.fmt == copy.fmt
    &&& source.children.len() == copy.children.len()
    &&& forall|i: int|
        0 <= i < source.children.len() ==> tree_cloned(
            #[trigger] source.children[i],
            copy.children[i],
        )
}

/// The models of `exprs`, in order.
pub open spec fn trees<T>(exprs: Seq<Expr<T>>) -> Seq<Tree<T>>
    decreases exprs,
{
    Seq::new(
        exprs.len(),
        |i: int|
            if 0 <= i < exprs.len() {
                exprs[i].tree()
            } else {
                arbitrary()
            },
    )
}

/// Expression tree of tokens.
#[derive(Debug)]
pub struct Expr<T = Token> {
    /// Token at the head of this expression.
    pub head_token: T,
    /// Child expressions of this expression.
    pub child_exprs: Vec<Expr<T>>,
    /// Formatting method used to display this expression.
    pub fmt_expr: FmtExpr,
}

impl<T> View for Expr<T> {
    type V = Tree<T>;

    open spec fn view(&self) -> Tree<T> {
        self.tree()
    }
}

impl<T> Expr<T> {
    /// The model of this expression.
    pub open spec fn tree(&self) -> Tree<T>
        decreases self,
    {
        Tree { head: self.head_token, fmt: self.fmt_expr, children: trees(self.child_exprs@) }
    }

    /// Constructs an Expr from parts.
    pub fn from_parts(head_token: T, child_exprs: Vec<Expr<T>>, fmt_expr: FmtExpr) -> (out: Self)
        ensures
            out.head_token == head_token,
            out.child_exprs == child_exprs,
            out.fmt_expr == fmt_expr,
    {
        Expr { head_token, child_exprs, fmt_expr }
    }

    /// Deconstructs an Expr into parts.
    pub fn into_parts(self) -> (out: (T, Vec<Expr<T>>, FmtExpr))
        ensures
            out.0 == self.head_token,
            out.1 == self.child_exprs,
            out.2 == self.fmt_expr,
    {
        (self.head_token, self.child_exprs, self.fmt_expr)
    }

    /// Constructs a childless Expr from a token, displayed the default way.
    pub fn from_token(head_token: T) -> (out: Self)
        ensures
            out.head_token == head_token,
            out.child_exprs@.len() == 0,
            out.fmt_expr == default_fmt(),
            out@ == leaf(head_token),
    {
        let out = Expr { head_token, child_exprs: Vec::new(), fmt_expr: FmtExpr::default() };
        assert(out@.children =~= Seq::empty());
        out
    }

    /// Constructs a childless Expr from a token, displayed the default way.
    pub fn new(head_token: T) -> (out: Self)
        ensures
            out.head_token == head_token,
            out.child_exprs@.len() == 0,
            out.fmt_expr == default_fmt(),
            out@ == leaf(head_token),
    {
        Self::from_token(head_token)
    }

    /// Appends `child` to the end of the children and hands `self` back for chaining.
    pub fn push_expr(&mut self, child: Expr<T>) -> (out: &mut Self)
        ensures
            out.head_token == old(self).head_token,
            out.fmt_expr == old(self).fmt_expr,
            out.child_exprs@ == old(self).child_exprs@.push(child),
            out@ == (Tree { children: old(self)@.children.push(child@), ..old(self)@ }),
            *final(self) == *final(out),
    {
        self.child_exprs.push(child);
        assert(trees(self.child_exprs@) =~= trees(old(self).child_exprs@).push(child@));
        self
    }
}

impl<T: Default> Default for Expr<T> {
    /// Constructs a childless Expr from the default token, displayed the default
    /// way.
    fn default() -> (out: Self)
        ensures
            call_ensures(T::default, (), out.head_token),
            out.child_exprs@.len() == 0,
            out.fmt_expr == default_fmt(),
            out@ == leaf(out.head_token),
    {
        Self::from_token(T::default())
    }
}

impl Expr<Token> {
    /// Constructs a childless Expr from text, displayed the default way.
    pub fn from_str(head_token: &str) -> (out: Self)
        ensures
            out.head_token@ == head_token@,
            out.child_exprs@.len() == 0,
            out.fmt_expr == default_fmt(),
            out@ == leaf(out.head_token),
    {
        Self::from_token(Token::from_str(head_token))
    }
}

impl From<Token> for Expr<Token> {
    /// Constructs a childless Expr from a token, displayed the default way.
    fn from(from: Token) -> (out: Self)
        ensures
            out.head_token == from,
            out.child_exprs@.len() == 0,
            out.fmt_expr == default_fmt(),
            out@ == leaf(from),
    {
        Self::from_token(from)
    }
}

/// What the conversion gives is stated on `from` itself: the child list of the
/// result has no value in specifications that `from_spec` could name.
impl vstd::std_specs::convert::FromSpecImpl<Token> for Expr<Token> {
    open spec fn obeys_from_spec() -> bool {
        false
    }

    open spec fn from_spec(from: Token) -> Self {
        arbitrary()
    }
}

impl From<&str> for Expr<Token> {
    /// Constructs a childless Expr from text, displayed the default way.
    fn from(from: &str) -> (out: Self)
        ensures
            out.head_token@ == from@,
            out.child_exprs@.len() == 0,
            out.fmt_expr == default_fmt(),
            out@ == leaf(out.head_token),
    {
        Self::from_str(from)
    }
}

/// What the conversion gives is stated on `from` itself: the token of the result
/// has no value in specifications that `from_spec` could name.
impl vstd::std_specs::convert::FromSpecImpl<&str> for Expr<Token> {
    open spec fn obeys_from_spec() -> bool {
        false
    }

    open spec fn from_spec(from: &str) -> Self {
        arbitrary()
    }
}

impl std::str::FromStr for Expr<Token> {
    type Err = std::convert::Infallible;

    /// Constructs a childless Expr from text, displayed the default way; this
    /// never fails.
    fn from_str(text: &str) -> (out: Result<Self, Self::Err>) {
        Ok(Expr::from_str(text))
    }
}

impl<T: Shown> Expr<T> {
    /// The texts of the children, each displayed by its own formatting method.
    fn child_texts(&self) -> (parts: Vec<String>)
        ensures
            texts(parts@) == tree_texts(self@.children),
        decreases self, 0nat,
    {
        let mut parts: Vec<String> = Vec::new();
        let mut index: usize = 0;
        while index < self.child_exprs.len()
            invariant
                index <= self.child_exprs.len(),
                parts@.len() == index,
                forall|i: int|
                    0 <= i < index ==> (#[trigger] parts@[i])@ == self.child_exprs[i]@.text(),
            decreases self.child_exprs.len() - index,
        {
            let part = self.child_exprs[index].to_string();
            parts.push(part);
            index += 1;
        }
        assert(texts(parts@) =~= tree_texts(self@.children));
        parts
    }

    /// Displays this expression by its own formatting method.
    pub fn to_string(&self) -> (text: String)
        ensures
            text@ == self@.text(),
        decreases self, 1nat,
    {
        let parts = self.child_texts();
        let head = self.head_token.to_string();
        lay_out(
            head.as_str(),
            &parts,
            self.fmt_expr.open,
            self.fmt_expr.separator,
            self.fmt_expr.close,
        )
    }
}

/// The default formatting method: the head alone, or `head [child, child, ...]`
/// with every child displayed by its own formatting method.
pub fn fmt_expr<T: Shown>(expr: &Expr<T>) -> (text: String)
    ensures
        text@ == expr@.default_text(),
{
    let parts = expr.child_texts();
    let head = expr.head_token.to_string();
    fmt_node(head.as_str(), &parts)
}

impl<T: Shown> Shown for Expr<T> {
    open spec fn shown(&self) -> Seq<char> {
        self@.text()
    }

    fn to_string(&self) -> (text: String) {
        Expr::to_string(self)
    }
}

impl<T: Clone> Clone for Expr<T> {
    fn clone(&self) -> (out: Self)
        ensures
            tree_cloned(self@, out@),
        decreases self,
    {
        let mut child_exprs: Vec<Expr<T>> = Vec::new();
        let mut index: usize = 0;
        while index < self.child_exprs.len()
            invariant
                index <= self.child_exprs.len(),
                child_exprs@.len() == index,
                forall|i: int|
                    0 <= i < index ==> tree_cloned(
                        self.child_exprs[i]@,
                        (#[trigger] child_exprs@[i])@,
                    ),
            decreases self.child_exprs.len() - index,
        {
            let child = self.child_exprs[index].clone();
            child_exprs.push(child);
            index += 1;
        }
        let out = Expr { head_token: self.head_token.clone(), child_exprs, fmt_expr: self.fmt_expr };
        assert forall|i: int| 0 <= i < self@.children.len() implies tree_cloned(
            #[trigger] self@.children[i],
            out@.children[i],
        ) by {
            assert(tree_cloned(self.child_exprs[i]@, out.child_exprs@[i]@));
        }
        out
    }
}

impl<T1: PartialEq<T2>, T2> PartialEq<Expr<T2>> for Expr<T1> {
    /// Two expressions are equal when their heads are equal and their children are
    /// pairwise equal in order, whatever their formatting methods.
    fn eq(&self, rhs: &Expr<T2>) -> (out: bool)
        decreases self,
    {
        if !(self.head_token == rhs.head_token) {
            return false;
        }
        if self.child_exprs.len() != rhs.child_exprs.len() {
            return false;
        }
        let mut index: usize = 0;
        while index < self.child_exprs.len()
            invariant
                index <= self.child_exprs.len(),
                self.child_exprs.len() == rhs.child_exprs.len(),
                T1::obeys_eq_spec() ==> forall|i: int|
                    0 <= i < index ==> tree_eq(#[trigger] self@.children[i], rhs@.children[i]),
            decreases self.child_exprs.len() - index,
        {
            if !(self.child_exprs[index] == rhs.child_exprs[index]) {
                proof {
                    let i = index as int;
                    assert(self@.children[i] == self.child_exprs[i]@);
                    assert(rhs@.children[i] == rhs.child_exprs[i]@);
                    assert(T1::obeys_eq_spec() ==> !tree_eq(self@.children[i], rhs@.children[i]));
                }
                return false;
            }
            proof {
                let i = index as int;
                assert(self@.children[i] == self.child_exprs[i]@);
                assert(rhs@.children[i] == rhs.child_exprs[i]@);
            }
            index += 1;
        }
        true
    }
}

impl<T1: PartialEq<T2>, T2> vstd::std_specs::cmp::PartialEqSpecImpl<Expr<T2>> for Expr<T1> {
    open spec fn obeys_eq_spec() -> bool {
        T1::obeys_eq_spec()
    }

    open spec fn eq_spec(&self, rhs: &Expr<T2>) -> bool {
        tree_eq(self@, rhs@)
    }
}

/// A clone of a tree over text tokens equals the tree and is displayed by the
/// same text.
pub proof fn lemma_cloned_alike(source: Tree<Token>, copy: Tree<Token>)
    requires
        tree_cloned(source, copy),
    ensures
        tree_eq(source, copy),
        copy.text() == source.text(),
    decreases source,
{
    assert forall|i: int| 0 <= i < source.children.len() implies tree_eq(
        #[trigger] source.children[i],
        copy.children[i],
    ) && copy.children[i].text() == source.children[i].text() by {
        assert(tree_cloned(source.children[i], copy.children[i]));
        lemma_cloned_alike(source.children[i], copy.children[i]);
    }
    assert(tree_texts(copy.children) =~= tree_texts(source.children));
}

/// A tree equals itself, where every token equals itself.
pub proof fn lemma_tree_eq_reflexive<T: PartialEq>(tree: Tree<T>)
    requires
        forall|token: T| #[trigger] token.eq_spec(&token),
    ensures
        tree_eq(tree, tree),
    decreases tree,
{
    assert forall|i: int| 0 <= i < tree.children.len() implies tree_eq(
        #[trigger] tree.children[i],
        tree.children[i],
    ) by {
        lemma_tree_eq_reflexive(tree.children[i]);
    }
}

/// Every expression over text tokens equals itself, and comparing expressions
/// over text tokens answers as stated.
pub proof fn lemma_eq_reflexive(expr: Expr<Token>)
    ensures
        expr.eq_spec(&expr),
        <Expr<Token> as PartialEqSpec<Expr<Token>>>::obeys_eq_spec(),
{
    lemma_tree_eq_reflexive(expr@);
}

/// Two expressions are equal exactly when their heads are equal, they have the
/// same number of children, and the children at each position are equal. So
/// expressions with different heads, with different numbers of children, or with
/// two different children at one position are never equal.
pub proof fn lemma_eq_structural<T1: PartialEq<T2>, T2>(left: Expr<T1>, right: Expr<T2>)
    ensures
        left.eq_spec(&right) <==> {
            &&& left.head_token.eq_spec(&right.head_token)
            &&& left.child_exprs@.len() == right.child_exprs@.len()
            &&& forall|i: int|
                0 <= i < left.child_exprs@.len() ==> (#[trigger] left.child_exprs@[i]).eq_spec(
                    &right.child_exprs@[i],
                )
        },
{
    if left.eq_spec(&right) {
        assert forall|i: int| 0 <= i < left.child_exprs@.len() implies (
        #[trigger] left.child_exprs@[i]).eq_spec(&right.child_exprs@[i]) by {
            assert(left@.children[i] == left.child_exprs@[i]@);
            assert(right@.children[i] == right.child_exprs@[i]@);
        }
    }
    if left.head_token.eq_spec(&right.head_token) && left.child_exprs@.len()
        == right.child_exprs@.len() && (forall|i: int|
        0 <= i < left.child_exprs@.len() ==> (#[trigger] left.child_exprs@[i]).eq_spec(
            &right.child_exprs@[i],
        )) {
        assert forall|i: int| 0 <= i < left@.children.len() implies tree_eq(
            #[trigger] left@.children[i],
            right@.children[i],
        ) by {
            assert(left.child_exprs@[i].eq_spec(&right.child_exprs@[i]));
        }
    }
}

/// Two trees are the same but for their formatting methods: the same head and,
/// position by position, children that are the same but for theirs.
pub open spec fn same_but_fmt<T>(first: Tree<T>, second: Tree<T>) -> bool
    decreases first,
{
    &&& first.head == second.head
    &&& first.children.len() == second.children.len()
    &&& forall|i: int|
        0 <= i < first.children.len() ==> same_but_fmt(
            #[trigger] first.children[i],
            second.children[i],
        )
}

/// The formatting methods take no part in equality: trees that differ in
/// formatting methods only, at any depth, equal the same trees, on either side.
pub proof fn lemma_eq_ignores_fmt<T1: PartialEq<T2>, T2>(
    left: Tree<T1>,
    other_left: Tree<T1>,
    right: Tree<T2>,
    other_right: Tree<T2>,
)
    requires
        same_but_fmt(left, other_left),
        same_but_fmt(right, other_right),
    ensures
        tree_eq(left, right) == tree_eq(other_left, other_right),
    decreases left,
{
    if left.children.len() == right.children.len() {
        assert forall|i: int| 0 <= i < left.children.len() implies tree_eq(
            #[trigger] left.children[i],
            right.children[i],
        ) == tree_eq(other_left.children[i], other_right.children[i]) by {
            assert(same_but_fmt(left.children[i], other_left.children[i]));
            assert(same_but_fmt(right.children[i], other_right.children[i]));
            lemma_eq_ignores_fmt(
                left.children[i],
                other_left.children[i],
                right.children[i],
                other_right.children[i],
            );
        }
        if tree_eq(left, right) {
            assert forall|i: int| 0 <= i < other_left.children.len() implies tree_eq(
                #[trigger] other_left.children[i],
                other_right.children[i],
            ) by {
                assert(tree_eq(left.children[i], right.children[i]));
            }
        }
        if tree_eq(other_left, other_right) {
            assert forall|i: int| 0 <= i < left.children.len() implies tree_eq(
                #[trigger] left.children[i],
                right.children[i],
            ) by {
                assert(tree_eq(other_left.children[i], other_right.children[i]));
            }
        }
    }
}

} // verus!
