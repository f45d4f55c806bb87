use expr::exprs::builders::nodes::Node;
use expr::exprs::builders::Builder;
use expr::exprs::{Expr, FmtExpr};
use expr::patterns::wildcard_patterns::WildcardPattern;
use expr::tokens::Token;

fn tree(head: &str, children: Vec<Expr>) -> Expr {
    Expr::from_parts(Token::from_str(head), children, FmtExpr::default())
}

fn part(head: &str, children: Vec<Builder>) -> Builder {
    Builder::BPart(Node::from_parts(Token::from_str(head), children, FmtExpr::default()))
}

#[test]
fn builder_constructors_make_the_named_states() {
    assert!(matches!(<Builder>::hole(), Builder::BHole));
    assert!(matches!(Builder::from_expr(Expr::from_str("a")), Builder::BExpr(_)));
    assert!(matches!(Builder::from_token(Token::from_str("a")), Builder::BExpr(_)));
    assert!(matches!(Builder::from_str("a"), Builder::BExpr(_)));
    match <Builder>::new() {
        Builder::BTokenHole { child_exprs, fmt_expr } => {
            assert!(child_exprs.is_empty());
            assert_eq!(fmt_expr.separator, ", ");
        }
        other => panic!("not a hole for a head: {:?}", other),
    }
}

#[test]
fn builder_is_hole_and_has_children_by_state() {
    let states = vec![
        (<Builder>::hole(), true, false),
        (<Builder>::new(), true, true),
        (Builder::from_str("a"), false, true),
        (part("a", vec![]), false, true),
    ];
    for (builder, hole, children) in states {
        assert_eq!(builder.is_hole(), hole);
        assert_eq!(builder.has_children(), children);
    }
}

#[test]
fn builder_take_token_leaves_a_hole_for_the_head() {
    let mut finished = Builder::from_expr(tree("f", vec![Expr::from_str("x"), Expr::from_str("y")]));
    assert_eq!(finished.take_token(), Some(Token::from_str("f")));
    match &finished {
        Builder::BTokenHole { child_exprs, .. } => {
            assert_eq!(child_exprs.len(), 2);
            assert_eq!(child_exprs[0], Expr::from_str("x"));
            assert_eq!(child_exprs[1], Expr::from_str("y"));
        }
        other => panic!("not a hole for a head: {:?}", other),
    }
    assert_eq!(finished.take_token(), None);

    let mut under_way = part("g", vec![<Builder>::hole()]);
    assert_eq!(under_way.take_token(), Some(Token::from_str("g")));
    assert!(matches!(&under_way, Builder::BTokenHole { child_exprs, .. } if child_exprs.len() == 1));

    let mut hole = <Builder>::hole();
    assert_eq!(hole.take_token(), None);
    assert!(matches!(hole, Builder::BHole));
}

#[test]
fn builder_set_token_promotes_a_hole_for_the_head() {
    let mut builder = <Builder>::new();
    builder.push_str("x");
    assert_eq!(builder.set_token(Token::from_str("f")), None);
    assert!(matches!(builder, Builder::BPart(_)));
    assert_eq!(builder.finish().unwrap().to_string(), "f [x]");
}

#[test]
fn builder_set_token_replaces_a_known_head() {
    let mut finished = Builder::from_expr(tree("f", vec![Expr::from_str("x")]));
    assert_eq!(finished.set_token(Token::from_str("g")), Some(Token::from_str("f")));
    assert!(matches!(finished, Builder::BExpr(_)));
    assert_eq!(finished.finish().unwrap().to_string(), "g [x]");

    let mut under_way = part("f", vec![Builder::from_str("x")]);
    assert_eq!(under_way.set_token(Token::from_str("h")), Some(Token::from_str("f")));
    assert_eq!(under_way.finish().unwrap().to_string(), "h [x]");
}

#[test]
fn builder_set_token_leaves_a_hole_alone() {
    let mut hole = <Builder>::hole();
    assert_eq!(hole.set_token(Token::from_str("f")), None);
    assert!(matches!(hole, Builder::BHole));
}

#[test]
fn builder_take_then_set_token_gives_the_tree_back() {
    let mut builder = Builder::from_expr(tree("f", vec![Expr::from_str("x")]));
    let head = builder.take_token().unwrap();
    assert!(!builder.can_finish());
    assert_eq!(builder.set_token(head), None);
    assert_eq!(builder.finish().unwrap(), tree("f", vec![Expr::from_str("x")]));
}

#[test]
fn builder_child_exprs_turns_an_expr_into_a_part() {
    let call = FmtExpr { open: "(", separator: " ", close: ")" };
    let mut builder = Builder::from_expr(Expr::from_parts(
        Token::from_str("f"),
        vec![Expr::from_str("x"), Expr::from_str("y")],
        call,
    ));
    {
        let children = builder.child_exprs();
        assert_eq!(children.len(), 2);
        assert!(matches!(&children[0], Builder::BExpr(expr) if *expr == Expr::from_str("x")));
        assert!(matches!(&children[1], Builder::BExpr(expr) if *expr == Expr::from_str("y")));
        children.push(<Builder>::hole());
    }
    match &builder {
        Builder::BPart(node) => {
            assert_eq!(node.head_token.as_str(), "f");
            assert_eq!(node.children.len(), 3);
            assert_eq!(node.fmt.open, "(");
        }
        other => panic!("not under construction: {:?}", other),
    }
}

#[test]
fn builder_child_exprs_of_parts_and_head_holes() {
    let mut head_hole = <Builder>::new();
    head_hole.child_exprs().push(Builder::from_str("x"));
    assert!(matches!(&head_hole, Builder::BTokenHole { child_exprs, .. } if child_exprs.len() == 1));

    let mut under_way = part("f", vec![<Builder>::hole()]);
    under_way.child_exprs()[0] = Builder::from_str("x");
    assert_eq!(under_way.finish().unwrap().to_string(), "f [x]");
}

#[test]
fn builder_pushes_append_children() {
    let mut builder = Builder::from_str("f");
    builder.push_str("a").push_token(Token::from_str("b")).push_expr(Expr::from_str("c"));
    assert!(matches!(builder, Builder::BPart(_)));
    builder.push_child(Builder::from_str("d"));
    assert!(matches!(builder, Builder::BPart(_)));
    builder.push_expr(Expr::from_str("e"));
    assert_eq!(builder.finish().unwrap().to_string(), "f [a, b, c, d, e]");

    let mut head_hole = <Builder>::new();
    head_hole.push_expr(Expr::from_str("x")).push_child(<Builder>::hole());
    assert!(matches!(&head_hole, Builder::BTokenHole { child_exprs, .. } if child_exprs.len() == 2));
}

#[test]
fn builder_can_finish_iff_no_hole_anywhere() {
    assert!(!<Builder>::hole().can_finish());
    assert!(!<Builder>::new().can_finish());
    assert!(Builder::from_str("a").can_finish());
    assert!(part("a", vec![]).can_finish());
    assert!(part("a", vec![Builder::from_str("b"), part("c", vec![])]).can_finish());
    assert!(!part("a", vec![Builder::from_str("b"), <Builder>::hole()]).can_finish());
    assert!(!part("a", vec![part("b", vec![part("c", vec![<Builder>::new()])])]).can_finish());
}

#[test]
fn builder_finish_gives_the_tree_and_leaves_a_hole() {
    let mut builder =
        part("f", vec![Builder::from_str("x"), part("g", vec![Builder::from_str("y")])]);
    let expr = builder.finish().unwrap();
    assert_eq!(expr, tree("f", vec![Expr::from_str("x"), tree("g", vec![Expr::from_str("y")])]));
    assert_eq!(expr.to_string(), "f [x, g [y]]");
    assert!(matches!(builder, Builder::BHole));
    assert_eq!(builder.finish(), None);
}

#[test]
fn builder_finish_of_a_reopened_expr_gives_it_back() {
    let expr = tree("f", vec![Expr::from_str("x"), tree("g", vec![Expr::from_str("y")])]);
    let mut finished = Builder::from_expr(expr.clone());
    assert_eq!(finished.finish(), Some(expr.clone()));
    let mut under_way = Builder::BPart(Node::from_expr(expr.clone()));
    assert_eq!(under_way.finish(), Some(expr));
}

#[test]
fn builder_finish_with_a_hole_keeps_the_structure() {
    let mut builder = part(
        "f",
        vec![
            part("g", vec![Builder::from_str("x")]),
            part("h", vec![Builder::from_str("y"), <Builder>::hole()]),
            Builder::from_str("z"),
        ],
    );
    assert_eq!(builder.finish(), None);
    assert!(!builder.can_finish());
    assert!(builder.has_children());
    {
        let children = builder.child_exprs();
        assert_eq!(children.len(), 3);
        assert!(children[0] == tree("g", vec![Expr::from_str("x")]));
        assert!(children[2] == Expr::from_str("z"));
        let stuck = children[1].child_exprs();
        assert_eq!(stuck.len(), 2);
        assert!(stuck[0] == Expr::from_str("y"));
        assert!(matches!(stuck[1], Builder::BHole));
        stuck[1] = Builder::from_str("w");
    }
    assert_eq!(builder.finish().unwrap().to_string(), "f [g [x], h [y, w], z]");
}

#[test]
fn builder_finish_twice_with_a_hole_changes_nothing_more() {
    let mut builder = part("f", vec![Builder::from_str("x"), <Builder>::new()]);
    assert_eq!(builder.finish(), None);
    assert_eq!(builder.finish(), None);
    assert!(!builder.can_finish());
    assert_eq!(builder.child_exprs().len(), 2);
}

#[test]
fn builder_into_expr_finishes_a_complete_builder() {
    let builder = part("f", vec![Builder::from_str("x")]);
    assert_eq!(builder.into_expr().to_string(), "f [x]");
    let node = Node::from_parts(Token::from_str("g"), vec![], FmtExpr::default());
    assert!(node.can_finish());
    assert_eq!(node.finish(), Expr::from_str("g"));
}

#[test]
fn builder_with_a_hole_equals_nothing() {
    let expr = Expr::from_str("a");
    let holes =
        vec![<Builder>::hole(), <Builder>::new(), part("a", vec![<Builder>::hole()])];
    for hole in &holes {
        assert!(!(hole == hole));
        assert!(!(*hole == expr));
        assert!(!(expr == *hole));
        assert!(!(*hole == Builder::from_str("a")));
        assert!(!(Builder::from_str("a") == *hole));
        assert!(!(*hole == <Builder>::hole()));
        assert!(!(*hole == <Builder>::new()));
    }
}

#[test]
fn builder_equality_is_by_content() {
    let expr = tree("f", vec![Expr::from_str("x"), Expr::from_str("y")]);
    let finished = Builder::from_expr(expr.clone());
    let under_way = part("f", vec![Builder::from_str("x"), part("y", vec![])]);
    assert!(finished == under_way);
    assert!(under_way == finished);
    assert!(finished == finished);
    assert!(under_way == under_way);
    assert!(under_way == expr);
    assert!(expr == under_way);
    assert!(finished == expr);
    let other = part("f", vec![Builder::from_str("x"), Builder::from_str("z")]);
    assert!(!(other == under_way));
    assert!(!(other == finished));
    assert!(!(other == expr));
    assert!(!(part("f", vec![Builder::from_str("x")]) == under_way));
    assert!(!(part("g", vec![Builder::from_str("x"), Builder::from_str("y")]) == under_way));
}

#[test]
fn builder_clone_is_the_same_builder() {
    let builder = part("f", vec![Builder::from_str("x"), <Builder>::new(), <Builder>::hole()]);
    let mut copy = builder.clone();
    assert!(matches!(copy, Builder::BPart(_)));
    {
        let children = copy.child_exprs();
        assert_eq!(children.len(), 3);
        assert!(matches!(children[0], Builder::BExpr(_)));
        assert!(matches!(children[1], Builder::BTokenHole { .. }));
        assert!(matches!(children[2], Builder::BHole));
    }
    assert!(Builder::from_str("a").clone() == Builder::from_str("a"));
}

#[test]
fn node_from_expr_wraps_every_child() {
    let call = FmtExpr { open: "(", separator: " ", close: ")" };
    let expr = Expr::from_parts(
        Token::from_str("f"),
        vec![Expr::from_str("x"), tree("g", vec![Expr::from_str("y")])],
        call,
    );
    let node = Node::from_expr(expr);
    assert_eq!(node.head_token.as_str(), "f");
    assert_eq!(node.fmt.close, ")");
    assert_eq!(node.children.len(), 2);
    assert!(matches!(&node.children[0], Builder::BExpr(expr) if expr.to_string() == "x"));
    assert!(matches!(&node.children[1], Builder::BExpr(expr) if expr.to_string() == "g [y]"));
    assert!(node.can_finish());
    let (head, children, fmt) = node.into_inner();
    assert_eq!(head.as_str(), "f");
    assert_eq!(children.len(), 2);
    assert_eq!(fmt.separator, " ");
}

#[test]
fn node_pushes_append_children() {
    let mut node = Node::from_parts(Token::from_str("f"), vec![], FmtExpr::default());
    node.push_expr(Expr::from_str("x")).push_builder(<Builder>::hole());
    assert_eq!(node.children.len(), 2);
    assert!(matches!(node.children[0], Builder::BExpr(_)));
    assert!(matches!(node.children[1], Builder::BHole));
    assert!(!node.can_finish());
    assert!(!node.clone().can_finish());
}

#[test]
fn builder_equality_crosses_token_types() {
    let tokens = part("f", vec![Builder::from_str("x")]);
    let wild: Builder<WildcardPattern> = Builder::BPart(Node::from_parts(
        WildcardPattern,
        vec![Builder::from_token(WildcardPattern)],
        FmtExpr::default(),
    ));
    assert!(wild == tokens);
    assert!(wild == tree("f", vec![Expr::from_str("x")]));
    let holed: Builder<WildcardPattern> = Builder::BPart(Node::from_parts(
        WildcardPattern,
        vec![Builder::hole()],
        FmtExpr::default(),
    ));
    assert!(!(holed == tokens));
    assert!(!(wild == part("f", vec![<Builder>::hole()])));
    let nothing: Builder<()> = Builder::from_token(());
    assert!(!(Builder::from_str("f") == nothing));
}

#[test]
fn builder_clone_finishes_to_an_equal_expr() {
    let builder = part("f", vec![Builder::from_str("x"), part("g", vec![Builder::from_str("y")])]);
    let copy = builder.clone();
    assert!(copy == builder);
    assert_eq!(copy.into_expr().to_string(), "f [x, g [y]]");
    assert_eq!(builder.into_expr().to_string(), "f [x, g [y]]");
}

#[test]
fn builder_push_onto_a_finished_expr_makes_a_part() {
    let call = FmtExpr { open: "(", separator: " ", close: ")" };
    let finished = Expr::from_parts(
        Token::from_str("f"),
        vec![Expr::from_str("x"), tree("g", vec![Expr::from_str("y")])],
        call,
    );

    let mut by_expr = Builder::from_expr(finished.clone());
    by_expr.push_expr(Expr::from_str("z"));
    let mut by_token = Builder::from_expr(finished.clone());
    by_token.push_token(Token::from_str("z"));
    let mut by_str = Builder::from_expr(finished.clone());
    by_str.push_str("z");
    let mut by_child = Builder::from_expr(finished.clone());
    by_child.push_child(Builder::from_str("z"));

    for builder in [by_expr, by_token, by_str, by_child] {
        assert!(builder.can_finish());
        match &builder {
            Builder::BPart(node) => {
                assert_eq!(node.head_token.as_str(), "f");
                assert_eq!(node.fmt.open, "(");
                assert_eq!(node.children.len(), 3);
                assert!(matches!(&node.children[0], Builder::BExpr(e) if *e == Expr::from_str("x")));
                assert!(matches!(&node.children[1], Builder::BExpr(e) if e.to_string() == "g [y]"));
                assert!(matches!(&node.children[2], Builder::BExpr(e) if *e == Expr::from_str("z")));
            }
            other => panic!("not under construction: {:?}", other),
        }
        assert_eq!(builder.into_expr().to_string(), "f(x g [y] z)");
    }
}

#[test]
fn builder_push_keeps_parts_and_head_holes() {
    let mut under_way = part("f", vec![Builder::hole()]);
    under_way.push_expr(Expr::from_str("x"));
    assert!(matches!(&under_way, Builder::BPart(node) if node.children.len() == 2
        && matches!(node.children[0], Builder::BHole)
        && matches!(node.children[1], Builder::BExpr(_))));

    let mut head_hole = <Builder>::new();
    head_hole.push_token(Token::from_str("x"));
    assert!(matches!(&head_hole, Builder::BTokenHole { child_exprs, .. } if child_exprs.len() == 1
        && matches!(child_exprs[0], Builder::BExpr(_))));
}

#[test]
fn builder_and_expr_compare_by_name() {
    let expr = tree("f", vec![Expr::from_str("x")]);
    let same = part("f", vec![Builder::from_str("x")]);
    let holed = part("f", vec![<Builder>::hole()]);
    assert!(same.eq_expr(&expr));
    assert!(expr.eq_builder(&same));
    assert!(!holed.eq_expr(&expr));
    assert!(!expr.eq_builder(&holed));
    assert!(!same.eq_expr(&Expr::from_str("f")));
    assert!(!Expr::from_str("f").eq_builder(&same));
}
