use expr::exprs::builders::nodes::Node;
use expr::exprs::builders::Builder;
use expr::exprs::{Expr, FmtExpr};
use expr::patterns::eq_patterns::EqPattern;
use expr::patterns::expr_patterns::{fmt_pattern, ChildPatterns, ExprPattern, FmtPattern};
use expr::patterns::token_patterns::TokenPattern;
use expr::patterns::wildcard_patterns::WildcardPattern;
use expr::nodes::Shown;
use expr::patterns::Pattern;
use expr::tokens::Token;

fn tree(head: &str, children: Vec<Expr>) -> Expr {
    Expr::from_parts(Token::from_str(head), children, FmtExpr::default())
}

fn part(head: &str, children: Vec<Builder>) -> Builder {
    Builder::BPart(Node::from_parts(Token::from_str(head), children, FmtExpr::default()))
}

fn any() -> ExprPattern<TokenPattern> {
    ExprPattern::from_token(TokenPattern::wildcard())
}

fn is(text: &str) -> ExprPattern<TokenPattern> {
    ExprPattern::from_token(TokenPattern::equals(Token::from_str(text)))
}

fn with(
    mut pattern: ExprPattern<TokenPattern>,
    children: Vec<(usize, ExprPattern<TokenPattern>)>,
) -> ExprPattern<TokenPattern> {
    for (index, child) in children {
        pattern.child_patterns.insert(index, child);
    }
    pattern
}

#[test]
fn wildcard_matches_everything() {
    assert!(WildcardPattern.match_pattern(&Token::from_str("a")));
    assert!(WildcardPattern.match_pattern(&()));
    assert!(WildcardPattern.match_pattern(&7u8));
    assert_eq!(WildcardPattern.to_string(), "Wildcard");
}

#[test]
fn eq_pattern_matches_what_equals_its_value() {
    let pattern = EqPattern(Token::from_str("a"));
    assert!(pattern.match_pattern(&Token::from_str("a")));
    assert!(!pattern.match_pattern(&Token::from_str("b")));
    assert!(!pattern.match_pattern(&()));
    assert_eq!(pattern.to_string(), "a");
    assert!(EqPattern(3u8).match_pattern(&3u8));
    assert!(!EqPattern(3u8).match_pattern(&4u8));
    assert!(EqPattern(Expr::from_str("a")).match_pattern(&Builder::from_str("a")));
    assert!(!EqPattern(Expr::from_str("a")).match_pattern(&<Builder>::hole()));
}

#[test]
fn token_pattern_is_either_leaf_kind() {
    let wildcard = TokenPattern::wildcard();
    let equality = TokenPattern::equals(Token::from_str("a"));
    assert!(wildcard.match_pattern(&Token::from_str("z")));
    assert!(wildcard.match_pattern(&()));
    assert!(equality.match_pattern(&Token::from_str("a")));
    assert!(!equality.match_pattern(&Token::from_str("z")));
    assert!(!equality.match_pattern(&()));
    assert_eq!(wildcard.to_string(), "Wildcard");
    assert_eq!(equality.to_string(), "a");
}

#[test]
fn child_patterns_hold_what_was_inserted() {
    let mut children: ChildPatterns<TokenPattern> = ChildPatterns::new();
    assert!(children.is_empty());
    assert!(children.indices().is_empty());
    assert!(children.get(0).is_none());

    assert!(children.insert(5, is("five")).is_none());
    assert!(children.insert(0, is("zero")).is_none());
    assert!(children.insert(2, is("two")).is_none());
    assert!(children.insert(1, is("one")).is_none());
    assert!(!children.is_empty());
    assert_eq!(children.indices(), vec![0, 1, 2, 5]);
    assert_eq!(children.get(0).unwrap().to_string(), "zero");
    assert_eq!(children.get(1).unwrap().to_string(), "one");
    assert_eq!(children.get(2).unwrap().to_string(), "two");
    assert_eq!(children.get(5).unwrap().to_string(), "five");
    assert!(children.get(3).is_none());
    assert!(children.get(4).is_none());
    assert!(children.get(6).is_none());
    assert!(children.get(usize::MAX).is_none());
}

#[test]
fn child_patterns_insert_replaces_and_returns_the_old() {
    let mut children: ChildPatterns<TokenPattern> = ChildPatterns::new();
    children.insert(0, is("a"));
    children.insert(1, is("b"));
    children.insert(2, is("c"));
    let old = children.insert(1, is("B")).unwrap();
    assert_eq!(old.to_string(), "b");
    assert_eq!(children.indices(), vec![0, 1, 2]);
    assert_eq!(children.get(0).unwrap().to_string(), "a");
    assert_eq!(children.get(1).unwrap().to_string(), "B");
    assert_eq!(children.get(2).unwrap().to_string(), "c");
}

#[test]
fn child_patterns_keep_far_apart_indices() {
    let mut children: ChildPatterns<TokenPattern> = ChildPatterns::new();
    children.insert(1_000_000_000, is("far"));
    children.insert(7, is("near"));
    children.insert(usize::MAX - 1, is("last"));
    assert_eq!(children.indices(), vec![7, 1_000_000_000, usize::MAX - 1]);
    assert_eq!(children.get(usize::MAX - 1).unwrap().to_string(), "last");
    assert!(children.get(8).is_none());
}

#[test]
fn sparse_pattern_matches_declared_children_only() {
    let target = tree("head", vec![Expr::from_str("a"), Expr::from_str("x"), Expr::from_str("b")]);

    let pattern = with(any(), vec![(0, any()), (2, is("b"))]);
    assert!(pattern.match_expr(&target));
    assert!(pattern.match_pattern(&target));

    let other_value = with(any(), vec![(0, any()), (2, is("c"))]);
    assert!(!other_value.match_expr(&target));

    let out_of_range = with(any(), vec![(0, any()), (2, is("b")), (5, any())]);
    assert!(!out_of_range.match_expr(&target));
    let only_out_of_range = with(any(), vec![(5, any())]);
    assert!(!only_out_of_range.match_expr(&target));
    let just_out_of_range = with(any(), vec![(3, any())]);
    assert!(!just_out_of_range.match_expr(&target));
}

#[test]
fn pattern_head_decides_first() {
    let target = tree("f", vec![Expr::from_str("x")]);
    assert!(is("f").match_expr(&target));
    assert!(!is("g").match_expr(&target));
    assert!(any().match_expr(&target));
    assert!(with(is("f"), vec![(0, is("x"))]).match_expr(&target));
    assert!(!with(is("g"), vec![(0, is("x"))]).match_expr(&target));
}

#[test]
fn pattern_matches_nested_children() {
    let target = tree(
        "f",
        vec![tree("g", vec![Expr::from_str("x"), Expr::from_str("y")]), Expr::from_str("z")],
    );
    let deep = with(is("f"), vec![(0, with(is("g"), vec![(1, is("y"))]))]);
    assert!(deep.match_expr(&target));
    let wrong = with(is("f"), vec![(0, with(is("g"), vec![(1, is("x"))]))]);
    assert!(!wrong.match_expr(&target));
    let too_deep = with(is("f"), vec![(1, with(is("z"), vec![(0, any())]))]);
    assert!(!too_deep.match_expr(&target));
}

#[test]
fn pattern_never_matches_a_hole() {
    assert!(!any().match_builder(&<Builder>::hole()));
    assert!(!is("a").match_builder(&<Builder>::hole()));
    assert!(!with(any(), vec![(0, any())]).match_builder(&part("f", vec![<Builder>::hole()])));
}

#[test]
fn pattern_probes_a_hole_for_the_head() {
    let mut head_hole = <Builder>::new();
    head_hole.push_str("x").push_str("y");

    assert!(any().match_builder(&head_hole));
    assert!(with(any(), vec![(1, is("y"))]).match_builder(&head_hole));
    assert!(!with(any(), vec![(1, is("x"))]).match_builder(&head_hole));
    assert!(!with(any(), vec![(2, any())]).match_builder(&head_hole));

    assert!(!is("x").match_builder(&head_hole));
    assert!(!is("").match_builder(&head_hole));
    assert!(!with(is("f"), vec![(1, is("y"))]).match_builder(&head_hole));
    assert!(!is("f").match_builder(&<Builder>::new()));
    assert!(any().match_builder(&<Builder>::new()));

    let equality: ExprPattern<EqPattern<Token>> =
        ExprPattern::from_token(EqPattern(Token::from_str("x")));
    assert!(!equality.match_builder(&head_hole));
    let wildcard: ExprPattern<WildcardPattern> = ExprPattern::from_token(WildcardPattern);
    assert!(wildcard.match_builder(&head_hole));
    assert!(wildcard.match_pattern(&head_hole));
}

#[test]
fn pattern_matches_builders_like_expressions() {
    let finished = Builder::from_expr(tree("f", vec![Expr::from_str("x"), Expr::from_str("y")]));
    let under_way = part("f", vec![Builder::from_str("x"), <Builder>::hole()]);
    let first = with(is("f"), vec![(0, is("x"))]);
    let second = with(is("f"), vec![(1, is("y"))]);
    assert!(first.match_builder(&finished));
    assert!(second.match_builder(&finished));
    assert!(first.match_builder(&under_way));
    assert!(!second.match_builder(&under_way));
    assert!(!with(is("g"), vec![(0, is("x"))]).match_builder(&under_way));
    let nested = part("f", vec![part("g", vec![<Builder>::new(), Builder::from_str("y")])]);
    assert!(with(any(), vec![(0, with(is("g"), vec![(0, any()), (1, is("y"))]))])
        .match_builder(&nested));
    assert!(!with(any(), vec![(0, with(is("g"), vec![(0, is("y"))]))]).match_builder(&nested));
}

#[test]
fn pattern_match_token_needs_no_declared_child() {
    assert!(is("a").match_token(&Token::from_str("a")));
    assert!(!is("a").match_token(&Token::from_str("b")));
    assert!(any().match_token(&()));
    assert!(!is("a").match_token(&()));
    assert!(!with(is("a"), vec![(0, any())]).match_token(&Token::from_str("a")));
}

#[test]
fn pattern_parts_round_trip() {
    let pattern = with(is("f"), vec![(1, is("x"))]);
    let (head, children, fmt) = pattern.into_parts();
    assert!(head.match_pattern(&Token::from_str("f")));
    assert_eq!(children.indices(), vec![1]);
    assert_eq!(fmt.elision, "...");
    let again = ExprPattern::from_parts(head, children, fmt);
    assert_eq!(again.to_string(), "f [... x]");
}

#[test]
fn pattern_displays_gaps_between_declared_children() {
    assert_eq!(is("h").to_string(), "h");
    assert_eq!(any().to_string(), "Wildcard");
    assert_eq!(with(is("h"), vec![(0, is("a"))]).to_string(), "h [a]");
    assert_eq!(with(is("h"), vec![(1, is("a"))]).to_string(), "h [... a]");
    assert_eq!(with(is("h"), vec![(0, is("a")), (1, is("b"))]).to_string(), "h [a, b]");
    assert_eq!(with(is("h"), vec![(0, any()), (2, is("b"))]).to_string(), "h [Wildcard,..., b]");
    assert_eq!(
        with(is("h"), vec![(7, is("d")), (3, is("b")), (4, with(is("c"), vec![(2, is("x"))]))])
            .to_string(),
        "h [... b, c [... x],..., d]"
    );
}

#[test]
fn pattern_displays_by_its_own_formatting_method() {
    let mut pattern = with(is("h"), vec![(0, is("a")), (2, is("b"))]);
    pattern.fmt_pattern = FmtPattern { open: "(", separator: ";", elision: "_", close: ")" };
    assert_eq!(pattern.to_string(), "h(a;_; b)");
    assert_eq!(fmt_pattern(&pattern), "h [a,..., b]");
    let outer = with(any(), vec![(1, pattern)]);
    assert_eq!(outer.to_string(), "Wildcard [... h(a;_; b)]");
}

#[test]
fn pattern_matches_trees_of_other_tokens() {
    let mut target: Expr<u8> = Expr::from_token(1);
    target.push_expr(Expr::from_token(2)).push_expr(Expr::from_token(3));

    let mut pattern: ExprPattern<EqPattern<u8>> = ExprPattern::from_token(EqPattern(1));
    pattern.child_patterns.insert(1, ExprPattern::from_token(EqPattern(3)));
    assert!(pattern.match_expr(&target));
    assert!(pattern == target);

    let mut wrong: ExprPattern<EqPattern<u8>> = ExprPattern::from_token(EqPattern(1));
    wrong.child_patterns.insert(0, ExprPattern::from_token(EqPattern(3)));
    assert!(!wrong.match_expr(&target));

    let wildcard: ExprPattern<WildcardPattern> = ExprPattern::from_token(WildcardPattern);
    assert!(wildcard.match_expr(&target));
    assert!(wildcard.match_builder(&Builder::from_expr(target)));
}
