//! Patterns against expressions and builders.

use vstd::prelude::*;
use sparse_vec::SparseVec;
use crate::exprs::Expr;
use crate::exprs::builders::Builder;
use crate::nodes::{entry_texts, lay_out_sparse, sparse_layout, Shown};
use crate::patterns::Pattern;
use crate::patterns::sparse::{
    ranges_cover, sparse_contents, sparse_get, sparse_insert, sparse_new, sparse_ranges,
};

verus! {

/// The integers of `declared` below `bound` and not below zero, in ascending order.
pub open spec fn ascending(declared: Set<int>, bound: int) -> Seq<int>
    decreases bound,
{
    if bound <= 0 {
        Seq::empty()
    } else if declared.contains(bound - 1) {
        ascending(declared, bound - 1).push(bound - 1)
    } else {
        ascending(declared, bound - 1)
    }
}

/// Where `declared` holds nothing from `low` up to `high`, the ascending order
/// below `high` is that below `low`.
pub proof fn lemma_ascending_skip(declared: Set<int>, low: int, high: int)
    requires
        low <= high,
        forall|i: int| low <= i < high ==> !declared.contains(i),
    ensures
        ascending(declared, high) == ascending(declared, low),
    decreases high - low,
{
    if low < high {
        lemma_ascending_skip(declared, low, high - 1);
    }
}

/// The ascending order holds exactly the members of `declared` within its bounds.
pub proof fn lemma_ascending_contains(declared: Set<int>, bound: int, i: int)
    ensures
        ascending(declared, bound).contains(i) <==> (0 <= i < bound && declared.contains(i)),
    decreases bound,
{
    if bound > 0 {
        lemma_ascending_contains(declared, bound - 1, i);
        let shorter = ascending(declared, bound - 1);
        if declared.contains(bound - 1) {
            let longer = shorter.push(bound - 1);
            if shorter.contains(i) {
                let k = choose|k: int| 0 <= k < shorter.len() && shorter[k] == i;
                assert(longer[k] == i);
            }
            if i == bound - 1 {
                assert(longer[shorter.len() as int] == i);
            }
        }
    }
}

/// The integers of `indices`.
pub open spec fn integers(indices: Seq<usize>) -> Seq<int> {
    Seq::new(indices.len(), |k: int| indices[k] as int)
}

/// Sparse child constraints of a pattern: a sub-pattern at each declared child
/// index, and nothing at the others.
#[derive(Debug)]
pub struct ChildPatterns<P> {
    /// The slot of the sub-pattern of each declared index.
    cells: SparseVec<usize>,
    /// The sub-patterns.
    slots: Vec<ExprPattern<P>>,
}

/// Formatting method of a pattern: the delimiters written around and between its
/// declared children, and the mark written where child indices are left out. A
/// pattern that declares no child is written as its head alone.
#[derive(Clone, Copy, Debug)]
pub struct FmtPattern {
    /// Written between the head and the first declared child.
    pub open: &'static str,
    /// Written after a declared child that another follows.
    pub separator: &'static str,
    /// Written where child indices are left out.
    pub elision: &'static str,
    /// Written after the last declared child.
    pub close: &'static str,
}

/// The default formatting method of patterns: `head [child,..., child]`.
pub open spec fn default_fmt_pattern() -> FmtPattern {
    FmtPattern { open: " [", separator: ",", elision: "...", close: "]" }
}

impl Default for FmtPattern {
    fn default() -> (out: Self)
        ensures
            out == default_fmt_pattern(),
    {
        FmtPattern { open: " [", separator: ",", elision: "...", close: "]" }
    }
}

/// Pattern matching against expressions.
#[derive(Debug)]
pub struct ExprPattern<P> {
    /// Pattern to match against the token at the head of the expression.
    pub head_token: P,
    /// Child patterns matching against the children of the expression.
    pub child_patterns: ChildPatterns<P>,
    /// Formatting method used to display the pattern.
    pub fmt_pattern: FmtPattern,
}

impl<P> View for ChildPatterns<P> {
    type V = Map<int, ExprPattern<P>>;

    closed spec fn view(&self) -> Map<int, ExprPattern<P>> {
        Map::new(|index: int| self.declares(index), |index: int| self.child(index))
    }
}

impl<P> ChildPatterns<P> {
    #[verifier::type_invariant]
    spec fn well_formed(self) -> bool {
        &&& forall|address: u64| #[trigger]
            sparse_contents(self.cells).dom().contains(address) ==> address < usize::MAX
                && sparse_contents(self.cells)[address] < self.slots.len()
        &&& forall|first: u64, second: u64|
            #![trigger sparse_contents(self.cells)[first], sparse_contents(self.cells)[second]]
            sparse_contents(self.cells).dom().contains(first) && sparse_contents(
                self.cells,
            ).dom().contains(second) && sparse_contents(self.cells)[first] == sparse_contents(
                self.cells,
            )[second] ==> first == second
    }

    /// A sub-pattern is declared for the child index `index`.
    spec fn declares(&self, index: int) -> bool {
        &&& 0 <= index < usize::MAX
        &&& sparse_contents(self.cells).dom().contains(index as u64)
        &&& sparse_contents(self.cells)[index as u64] < self.slots.len()
    }

    /// The sub-pattern declared for the child index `index`.
    spec fn child(&self, index: int) -> ExprPattern<P> {
        self.slots[sparse_contents(self.cells)[index as u64] as int]
    }

    /// The declared child indices in ascending order.
    pub open spec fn order(&self) -> Seq<int> {
        ascending(self@.dom(), usize::MAX as int)
    }

    /// Constructs child constraints that declare nothing.
    pub fn new() -> (out: Self)
        ensures
            out@ == Map::<int, ExprPattern<P>>::empty(),
    {
        let out = ChildPatterns { cells: sparse_new(), slots: Vec::new() };
        assert(out@ =~= Map::<int, ExprPattern<P>>::empty());
        out
    }

    /// Declares `pattern` for the child index `index`, in place of what was
    /// declared for it, which is returned.
    pub fn insert(&mut self, index: usize, pattern: ExprPattern<P>) -> (out: Option<ExprPattern<P>>)
        requires
            index < usize::MAX,
        ensures
            final(self)@ == old(self)@.insert(index as int, pattern),
            out == if old(self)@.dom().contains(index as int) {
                Some(old(self)@[index as int])
            } else {
                None
            },
    {
        proof {
            use_type_invariant(&*self);
        }
        let mut taken = ChildPatterns::new();
        std::mem::swap(self, &mut taken);
        let ChildPatterns { cells, slots } = taken;
        let mut cells = cells;
        let mut slots = slots;
        let address = index as u64;
        let ghost given = pattern;
        let mut pattern = pattern;
        let out = match sparse_get(&cells, address, address + 1) {
            Some(found) => {
                let slot = found[0];
                std::mem::swap(&mut slots[slot], &mut pattern);
                Some(pattern)
            },
            None => {
                let slot = slots.len();
                slots.push(pattern);
                sparse_insert(&mut cells, address, slot);
                None
            },
        };
        *self = ChildPatterns { cells, slots };
        assert(final(self)@ =~= old(self)@.insert(index as int, given));
        out
    }

    /// Gets the sub-pattern declared for the child index `index`.
    pub fn get(&self, index: usize) -> (out: Option<&ExprPattern<P>>)
        ensures
            match out {
                Some(pattern) => self@.dom().contains(index as int) && *pattern == self@[index as int],
                None => !self@.dom().contains(index as int),
            },
    {
        proof {
            use_type_invariant(self);
        }
        if index == usize::MAX {
            return None;
        }
        let address = index as u64;
        match sparse_get(&self.cells, address, address + 1) {
            Some(found) => {
                let slot = found[0];
                Some(&self.slots[slot])
            },
            None => None,
        }
    }

    /// The sub-pattern declared for the child index `index`.
    fn at(&self, index: usize) -> (out: &ExprPattern<P>)
        requires
            self@.dom().contains(index as int),
        ensures
            *out == self@[index as int],
    {
        match self.get(index) {
            Some(pattern) => pattern,
            None => unreached(),
        }
    }

    /// Tests that nothing is declared.
    pub fn is_empty(&self) -> (out: bool)
        ensures
            out == (self@ == Map::<int, ExprPattern<P>>::empty()),
    {
        proof {
            use_type_invariant(self);
        }
        let ranges = sparse_ranges(&self.cells);
        if ranges.len() == 0 {
            assert(self@ =~= Map::<int, ExprPattern<P>>::empty());
            true
        } else {
            let first = ranges[0].0;
            assert(sparse_contents(self.cells).dom().contains(first));
            assert(self@.dom().contains(first as int));
            false
        }
    }

    /// Lists the declared child indices in ascending order.
    pub fn indices(&self) -> (out: Vec<usize>)
        ensures
            integers(out@) == self.order(),
    {
        proof {
            use_type_invariant(self);
        }
        let ghost declared = self@.dom();
        let ranges = sparse_ranges(&self.cells);
        let mut out: Vec<usize> = Vec::new();
        let mut at: usize = 0;
        let ghost mut reached: int = 0;
        while at < ranges.len()
            invariant
                at <= ranges.len(),
                ranges_cover(ranges@, sparse_contents(self.cells).dom()),
                declared == self@.dom(),
                self.well_formed(),
                0 <= reached <= usize::MAX,
                at == 0 ==> reached == 0,
                at > 0 ==> reached == ranges@[at - 1].1,
                integers(out@) == ascending(declared, reached),
            decreases ranges.len() - at,
        {
            let (start, end) = ranges[at];
            proof {
                assert(start == ranges@[at as int].0 && end == ranges@[at as int].1);
                if at > 0 {
                    assert(ranges@[at - 1].1 <= ranges@[at as int].0);
                }
                assert(sparse_contents(self.cells).dom().contains(start));
                assert forall|i: int| reached <= i < start implies !declared.contains(i) by {
                    if declared.contains(i) {
                        let k = choose|k: int|
                            0 <= k < ranges@.len() && (#[trigger] ranges@[k]).0 <= (i as u64)
                                < ranges@[k].1;
                        if k < at {
                            if k < at - 1 {
                                assert(ranges@[k].1 <= ranges@[at - 1].0);
                            }
                        } else if k > at {
                            assert(ranges@[at as int].1 <= ranges@[k].0);
                        }
                    }
                }
                lemma_ascending_skip(declared, reached, start as int);
            }
            let mut address: u64 = start;
            while address < end
                invariant
                    start <= address <= end,
                    (start, end) == ranges@[at as int],
                    at < ranges.len(),
                    ranges_cover(ranges@, sparse_contents(self.cells).dom()),
                    declared == self@.dom(),
                    self.well_formed(),
                    integers(out@) == ascending(declared, address as int),
                decreases end - address,
            {
                proof {
                    assert(ranges@[at as int].0 <= address < ranges@[at as int].1);
                    assert(sparse_contents(self.cells).dom().contains(address));
                    assert(declared.contains(address as int));
                }
                let ghost before = integers(out@);
                out.push(address as usize);
                assert(integers(out@) =~= before.push(address as int));
                address += 1;
            }
            proof {
                assert(sparse_contents(self.cells).dom().contains((end - 1) as u64));
                reached = end as int;
            }
            at += 1;
        }
        proof {
            assert forall|i: int| reached <= i < usize::MAX implies !declared.contains(i) by {
                if declared.contains(i) {
                    let k = choose|k: int|
                        0 <= k < ranges@.len() && (#[trigger] ranges@[k]).0 <= (i as u64) < ranges@[k].1;
                    if k < at - 1 {
                        assert(ranges@[k].1 <= ranges@[at - 1].0);
                    }
                }
            }
            lemma_ascending_skip(declared, reached, usize::MAX as int);
        }
        out
    }
}

impl<P> ExprPattern<P> {
    /// Whether the pattern accepts `expr`: the head pattern accepts the head, and
    /// for every declared child index the expression has a child there which the
    /// sub-pattern accepts.
    pub open spec fn matches_expr<T>(&self, expr: &Expr<T>) -> bool where P: Pattern<T>
        decreases self,
    {
        &&& self.head_token.match_spec(&expr.head_token)
        &&& forall|index: int| #[trigger]
            self.child_patterns@.dom().contains(index) ==> 0 <= index < expr.child_exprs.len()
                && self.child_patterns@[index].matches_expr(&expr.child_exprs[index])
    }

    /// Whether for every declared child index there is a builder in `builders`
    /// which the sub-pattern accepts.
    pub open spec fn matches_builders<T>(&self, builders: Seq<Builder<T>>) -> bool where
        P: Pattern<T> + Pattern<()>,

        decreases self, 0nat,
    {
        forall|index: int| #[trigger]
            self.child_patterns@.dom().contains(index) ==> 0 <= index < builders.len()
                && self.child_patterns@[index].matches_builder(&builders[index])
    }

    /// Whether the pattern accepts the expression under construction by
    /// `builder`. A hole is never accepted; a hole for a head is tried with the
    /// absence of information.
    pub open spec fn matches_builder<T>(&self, builder: &Builder<T>) -> bool where
        P: Pattern<T> + Pattern<()>,

        decreases self, 1nat,
    {
        match builder {
            Builder::BHole => false,
            Builder::BTokenHole { child_exprs, .. } => <P as Pattern<()>>::match_spec(
                &self.head_token,
                &(),
            ) && self.matches_builders(child_exprs@),
            Builder::BExpr(expr) => self.matches_expr(expr),
            Builder::BPart(node) => <P as Pattern<T>>::match_spec(
                &self.head_token,
                &node.head_token,
            ) && self.matches_builders(node.children@),
        }
    }

    /// Constructs a pattern from parts.
    pub fn from_parts(
        head_token: P,
        child_patterns: ChildPatterns<P>,
        fmt_pattern: FmtPattern,
    ) -> (out: Self)
        ensures
            out.head_token == head_token,
            out.child_patterns == child_patterns,
            out.fmt_pattern == fmt_pattern,
    {
        ExprPattern { head_token, child_patterns, fmt_pattern }
    }

    /// Deconstructs `self` into parts.
    pub fn into_parts(self) -> (out: (P, ChildPatterns<P>, FmtPattern))
        ensures
            out.0 == self.head_token,
            out.1 == self.child_patterns,
            out.2 == self.fmt_pattern,
    {
        (self.head_token, self.child_patterns, self.fmt_pattern)
    }

    /// Constructs a pattern from a token pattern: it declares no child and is
    /// displayed the default way.
    pub fn from_token(head_token: P) -> (out: Self)
        ensures
            out.head_token == head_token,
            out.child_patterns@ == Map::<int, ExprPattern<P>>::empty(),
            out.fmt_pattern == default_fmt_pattern(),
    {
        ExprPattern {
            head_token,
            child_patterns: ChildPatterns::new(),
            fmt_pattern: FmtPattern::default(),
        }
    }

    /// Checks `expr` against `self`.
    #[verifier::loop_isolation(false)]
    pub fn match_expr<T>(&self, expr: &Expr<T>) -> (out: bool) where P: Pattern<T>
        ensures
            P::obeys_match_spec() ==> out == self.matches_expr(expr),
        decreases self,
    {
        if !self.head_token.match_pattern(&expr.head_token) {
            return false;
        }
        let indices = self.child_patterns.indices();
        let mut at: usize = 0;
        while at < indices.len()
            invariant
                at <= indices.len(),
                P::obeys_match_spec() ==> forall|k: int|
                    0 <= k < at ==> (#[trigger] indices@[k]) < expr.child_exprs.len()
                        && self.child_patterns@[indices@[k] as int].matches_expr(
                        &expr.child_exprs[indices@[k] as int],
                    ),
            decreases indices.len() - at,
        {
            let index = indices[at];
            proof {
                assert(integers(indices@)[at as int] == index);
                lemma_ascending_contains(self.child_patterns@.dom(), usize::MAX as int, index as int);
            }
            if index >= expr.child_exprs.len() {
                return false;
            }
            if !self.child_patterns.at(index).match_expr(&expr.child_exprs[index]) {
                return false;
            }
            at += 1;
        }
        proof {
            if P::obeys_match_spec() {
                assert forall|index: int| #[trigger]
                    self.child_patterns@.dom().contains(index) implies 0 <= index
                    < expr.child_exprs.len() && self.child_patterns@[index].matches_expr(
                    &expr.child_exprs[index],
                ) by {
                    lemma_ascending_contains(self.child_patterns@.dom(), usize::MAX as int, index);
                    let k = choose|k: int|
                        0 <= k < integers(indices@).len() && integers(indices@)[k] == index;
                    assert(indices@[k] == index);
                }
            }
        }
        true
    }
}

impl<P> ExprPattern<P> {
    /// Checks the children of an expression under construction against the
    /// declared sub-patterns.
    #[verifier::loop_isolation(false)]
    fn match_builders<T>(&self, builders: &Vec<Builder<T>>) -> (out: bool) where
        P: Pattern<T> + Pattern<()>,

        ensures
            <P as Pattern<T>>::obeys_match_spec() && <P as Pattern<()>>::obeys_match_spec()
                ==> out == self.matches_builders(builders@),
        decreases self, 0nat,
    {
        let ghost obeys = <P as Pattern<T>>::obeys_match_spec() && <P as Pattern<
            (),
        >>::obeys_match_spec();
        let indices = self.child_patterns.indices();
        let mut at: usize = 0;
        while at < indices.len()
            invariant
                at <= indices.len(),
                obeys ==> forall|k: int|
                    0 <= k < at ==> (#[trigger] indices@[k]) < builders.len()
                        && self.child_patterns@[indices@[k] as int].matches_builder(
                        &builders[indices@[k] as int],
                    ),
            decreases indices.len() - at,
        {
            let index = indices[at];
            proof {
                assert(integers(indices@)[at as int] == index);
                lemma_ascending_contains(self.child_patterns@.dom(), usize::MAX as int, index as int);
            }
            if index >= builders.len() {
                return false;
            }
            if !self.child_patterns.at(index).match_builder(&builders[index]) {
                return false;
            }
            at += 1;
        }
        proof {
            if obeys {
                assert forall|index: int| #[trigger]
                    self.child_patterns@.dom().contains(index) implies 0 <= index < builders.len()
                    && self.child_patterns@[index].matches_builder(&builders[index]) by {
                    lemma_ascending_contains(self.child_patterns@.dom(), usize::MAX as int, index);
                    let k = choose|k: int|
                        0 <= k < integers(indices@).len() && integers(indices@)[k] == index;
                    assert(indices@[k] == index);
                }
            }
        }
        true
    }

    /// Checks the expression under construction by `builder` against `self`. A
    /// hole for a head is matched against `()`.
    pub fn match_builder<T>(&self, builder: &Builder<T>) -> (out: bool) where
        P: Pattern<T> + Pattern<()>,

        ensures
            <P as Pattern<T>>::obeys_match_spec() && <P as Pattern<()>>::obeys_match_spec()
                ==> out == self.matches_builder(builder),
        decreases self, 1nat,
    {
        match builder {
            Builder::BHole => false,
            Builder::BTokenHole { child_exprs, .. } => {
                if !self.head_token.match_pattern(&()) {
                    return false;
                }
                self.match_builders(child_exprs)
            },
            Builder::BExpr(expr) => self.match_expr(expr),
            Builder::BPart(node) => {
                if !self.head_token.match_pattern(&node.head_token) {
                    return false;
                }
                self.match_builders(&node.children)
            },
        }
    }

    /// Checks `token` against `self`, as an expression without children.
    pub fn match_token<T>(&self, token: &T) -> (out: bool) where P: Pattern<T>
        ensures
            P::obeys_match_spec() ==> out == (self.child_patterns@ == Map::<
                int,
                ExprPattern<P>,
            >::empty() && self.head_token.match_spec(token)),
    {
        self.child_patterns.is_empty() && self.head_token.match_pattern(token)
    }
}

impl<P: Pattern<T>, T> Pattern<Expr<T>> for ExprPattern<P> {
    open spec fn obeys_match_spec() -> bool {
        P::obeys_match_spec()
    }

    open spec fn match_spec(&self, target: &Expr<T>) -> bool {
        self.matches_expr(target)
    }

    fn match_pattern(&self, target: &Expr<T>) -> (out: bool) {
        self.match_expr(target)
    }
}

impl<P: Pattern<T> + Pattern<()>, T> Pattern<Builder<T>> for ExprPattern<P> {
    open spec fn obeys_match_spec() -> bool {
        <P as Pattern<T>>::obeys_match_spec() && <P as Pattern<()>>::obeys_match_spec()
    }

    open spec fn match_spec(&self, target: &Builder<T>) -> bool {
        self.matches_builder(target)
    }

    fn match_pattern(&self, target: &Builder<T>) -> (out: bool) {
        self.match_builder(target)
    }
}

impl<P: Pattern<T>, T> PartialEq<Expr<T>> for ExprPattern<P> {
    /// A pattern equals the expressions that it accepts.
    fn eq(&self, rhs: &Expr<T>) -> (out: bool) {
        self.match_expr(rhs)
    }
}

impl<P: Pattern<T>, T> vstd::std_specs::cmp::PartialEqSpecImpl<Expr<T>> for ExprPattern<P> {
    open spec fn obeys_eq_spec() -> bool {
        P::obeys_match_spec()
    }

    open spec fn eq_spec(&self, rhs: &Expr<T>) -> bool {
        self.matches_expr(rhs)
    }
}

impl<P: Pattern<T> + Pattern<()>, T> PartialEq<Builder<T>> for ExprPattern<P> {
    /// A pattern equals the builders that it accepts.
    fn eq(&self, rhs: &Builder<T>) -> (out: bool) {
        self.match_builder(rhs)
    }
}

impl<P: Pattern<T> + Pattern<()>, T> vstd::std_specs::cmp::PartialEqSpecImpl<Builder<T>> for ExprPattern<P> {
    open spec fn obeys_eq_spec() -> bool {
        <P as Pattern<T>>::obeys_match_spec() && <P as Pattern<()>>::obeys_match_spec()
    }

    open spec fn eq_spec(&self, rhs: &Builder<T>) -> bool {
        self.matches_builder(rhs)
    }
}

impl<P: Shown> ExprPattern<P> {
    /// The declared child indices in ascending order, each with the text of its
    /// sub-pattern.
    pub open spec fn entries(&self) -> Seq<(int, Seq<char>)>
        decreases self, 0nat,
    {
        let order = self.child_patterns.order();
        Seq::new(
            order.len(),
            |k: int|
                if 0 <= k < order.len() && self.child_patterns@.dom().contains(order[k]) {
                    (order[k], self.child_patterns@[order[k]].text())
                } else {
                    arbitrary()
                },
        )
    }

    /// The text that displays the pattern, every pattern laid out by its own
    /// method.
    pub open spec fn text(&self) -> Seq<char>
        decreases self, 1nat,
    {
        sparse_layout(
            self.head_token.shown(),
            self.entries(),
            self.fmt_pattern.open@,
            self.fmt_pattern.separator@,
            self.fmt_pattern.elision@,
            self.fmt_pattern.close@,
        )
    }

    /// The text that displays the pattern when its root is laid out the default
    /// way.
    pub open spec fn default_text(&self) -> Seq<char> {
        sparse_layout(self.head_token.shown(), self.entries(), " ["@, ","@, "..."@, "]"@)
    }

    /// The declared child indices in ascending order, each with its sub-pattern
    /// displayed by its own formatting method.
    #[verifier::loop_isolation(false)]
    fn child_texts(&self) -> (out: Vec<(usize, String)>)
        ensures
            entry_texts(out@) == self.entries(),
        decreases self, 0nat,
    {
        let indices = self.child_patterns.indices();
        let mut out: Vec<(usize, String)> = Vec::new();
        let mut at: usize = 0;
        while at < indices.len()
            invariant
                at <= indices.len(),
                out@.len() == at,
                forall|k: int|
                    0 <= k < at ==> (#[trigger] out@[k]).0 == indices@[k] && out@[k].1@
                        == self.child_patterns@[indices@[k] as int].text(),
            decreases indices.len() - at,
        {
            let index = indices[at];
            proof {
                assert(integers(indices@)[at as int] == index);
                lemma_ascending_contains(self.child_patterns@.dom(), usize::MAX as int, index as int);
            }
            out.push((index, self.child_patterns.at(index).to_string()));
            at += 1;
        }
        proof {
            let order = self.child_patterns.order();
            assert forall|k: int| 0 <= k < order.len() implies self.child_patterns@.dom().contains(
                order[k],
            ) && entry_texts(out@)[k] == self.entries()[k] by {
                assert(integers(indices@)[k] == indices@[k]);
                lemma_ascending_contains(self.child_patterns@.dom(), usize::MAX as int, order[k]);
            }
            assert(entry_texts(out@) =~= self.entries());
        }
        out
    }
}

impl<P: Shown> Shown for ExprPattern<P> {
    open spec fn shown(&self) -> Seq<char> {
        self.text()
    }

    /// Displays the pattern by its own formatting method.
    fn to_string(&self) -> (text: String)
        decreases self, 1nat,
    {
        let entries = self.child_texts();
        lay_out_sparse(
            self.head_token.to_string().as_str(),
            &entries,
            self.fmt_pattern.open,
            self.fmt_pattern.separator,
            self.fmt_pattern.elision,
            self.fmt_pattern.close,
        )
    }
}

/// The default formatting method of patterns: the head alone, or the head and,
/// between ` [` and `]`, the declared sub-patterns, each displayed by its own
/// formatting method. A sub-pattern whose index does not follow on the one before
/// it, or the first one where its index is not zero, is marked with `...`.
pub fn fmt_pattern<P: Shown>(pattern: &ExprPattern<P>) -> (text: String)
    ensures
        text@ == pattern.default_text(),
{
    let entries = pattern.child_texts();
    lay_out_sparse(pattern.head_token.to_string().as_str(), &entries, " [", ",", "...", "]")
}

} // verus!
