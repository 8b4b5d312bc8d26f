use linked_data_sparql::{
    leaf, with_predicate, ConstructQuery, FreshVariables, NamedNode, Pattern, Predicate, Subject,
    Term, Triple, Variable,
};
use spargebra::algebra::{Expression, GraphPattern};
use spargebra::term::{NamedNodePattern, TermPattern, TriplePattern};

fn var(name: &str) -> Variable {
    Variable::new(name.to_string()).unwrap()
}

fn node(iri: &str) -> NamedNode {
    NamedNode::new(iri.to_string())
}

fn v(name: &str) -> TermPattern {
    TermPattern::Variable(spargebra::term::Variable::new_unchecked(name))
}

fn n(iri: &str) -> spargebra::term::NamedNode {
    spargebra::term::NamedNode::new_unchecked(iri)
}

fn hop(s: &str, p: &str, o: &str) -> TriplePattern {
    TriplePattern { subject: v(s), predicate: NamedNodePattern::NamedNode(n(p)), object: v(o) }
}

fn bgp(patterns: Vec<TriplePattern>) -> GraphPattern {
    GraphPattern::Bgp { patterns }
}

fn join(left: GraphPattern, right: GraphPattern) -> GraphPattern {
    GraphPattern::Join { left: Box::new(left), right: Box::new(right) }
}

fn union(left: GraphPattern, right: GraphPattern) -> GraphPattern {
    GraphPattern::Union { left: Box::new(left), right: Box::new(right) }
}

fn template_of(q: &ConstructQuery) -> Vec<TriplePattern> {
    linked_data_sparql::compile::triples_to_algebra(q.template())
}

fn two_fields(binding: Variable, fresh: &mut FreshVariables) -> ConstructQuery {
    ConstructQuery::empty()
        .join_with_binding(binding.duplicate(), node("http://ex/field_0"), leaf, fresh)
        .join_with_binding(binding, node("http://ex/field_1"), leaf, fresh)
}

fn two_fields_pattern(b: &str, x: &str, y: &str) -> GraphPattern {
    join(
        join(bgp(vec![]), join(bgp(vec![hop(b, "http://ex/field_0", x)]), bgp(vec![]))),
        join(bgp(vec![hop(b, "http://ex/field_1", y)]), bgp(vec![])),
    )
}

fn term_names(t: &TermPattern, out: &mut Vec<String>) {
    if let TermPattern::Variable(x) = t {
        out.push(x.as_str().to_string());
    }
}

fn triple_names(t: &TriplePattern, out: &mut Vec<String>) {
    term_names(&t.subject, out);
    if let NamedNodePattern::Variable(x) = &t.predicate {
        out.push(x.as_str().to_string());
    }
    term_names(&t.object, out);
}

fn pattern_names(p: &GraphPattern, out: &mut Vec<String>) {
    match p {
        GraphPattern::Bgp { patterns } => {
            for t in patterns {
                triple_names(t, out);
            }
        }
        GraphPattern::Join { left, right } | GraphPattern::Union { left, right } => {
            pattern_names(left, out);
            pattern_names(right, out);
        }
        GraphPattern::Filter { inner, .. } => pattern_names(inner, out),
        _ => panic!("a node that the builder never makes"),
    }
}

fn is_complete(q: &ConstructQuery) -> bool {
    let mut bound = Vec::new();
    pattern_names(&q.pattern().to_algebra(), &mut bound);
    let mut used = Vec::new();
    for t in template_of(q) {
        triple_names(&t, &mut used);
    }
    used.iter().all(|name| bound.contains(name))
}

#[test]
fn empty_query_has_no_triple() {
    let q = ConstructQuery::empty();
    assert!(q.template().is_empty());
    assert_eq!(q.pattern(), &Pattern::Basic(vec![]));
    assert_eq!(q.pattern().to_algebra(), bgp(vec![]));
}

#[test]
fn new_puts_one_triple_in_template_and_pattern() {
    let q = ConstructQuery::new(
        Subject::Variable(var("s")),
        Predicate::NamedNode(node("http://ex/p")),
        Term::Variable(var("o")),
    );
    let expected_triple = Triple::new(
        Subject::Variable(var("s")),
        Predicate::NamedNode(node("http://ex/p")),
        Term::Variable(var("o")),
    );
    assert_eq!(q.template().len(), 1);
    assert_eq!(q.template()[0], expected_triple);
    assert_eq!(template_of(&q), vec![hop("s", "http://ex/p", "o")]);
    assert_eq!(q.pattern().to_algebra(), bgp(vec![hop("s", "http://ex/p", "o")]));
    assert!(is_complete(&q));
}

#[test]
fn join_keeps_left_and_right() {
    let a = ConstructQuery::new(
        Subject::Variable(var("a")),
        Predicate::NamedNode(node("http://ex/p")),
        Term::Variable(var("b")),
    );
    let b = ConstructQuery::new(
        Subject::Variable(var("c")),
        Predicate::NamedNode(node("http://ex/q")),
        Term::Variable(var("d")),
    );
    let q = a.join(b);
    assert_eq!(
        template_of(&q),
        vec![hop("a", "http://ex/p", "b"), hop("c", "http://ex/q", "d")]
    );
    assert_eq!(
        q.pattern().to_algebra(),
        join(bgp(vec![hop("a", "http://ex/p", "b")]), bgp(vec![hop("c", "http://ex/q", "d")]))
    );
    assert!(is_complete(&q));
}

#[test]
fn union_keeps_left_and_right() {
    let a = ConstructQuery::new(
        Subject::Variable(var("a")),
        Predicate::NamedNode(node("http://ex/p")),
        Term::Variable(var("b")),
    );
    let b = ConstructQuery::new(
        Subject::Variable(var("c")),
        Predicate::NamedNode(node("http://ex/q")),
        Term::Variable(var("d")),
    );
    let q = a.union(b);
    assert_eq!(
        template_of(&q),
        vec![hop("a", "http://ex/p", "b"), hop("c", "http://ex/q", "d")]
    );
    assert_eq!(
        q.pattern().to_algebra(),
        union(bgp(vec![hop("a", "http://ex/p", "b")]), bgp(vec![hop("c", "http://ex/q", "d")]))
    );
    assert!(is_complete(&q));
}

#[test]
fn join_does_not_flatten() {
    let t = |s: &str| {
        ConstructQuery::new(
            Subject::Variable(var(s)),
            Predicate::NamedNode(node("http://ex/p")),
            Term::Variable(var("o")),
        )
    };
    let q = t("a").join(t("b")).join(t("c"));
    let leaf_of = |s: &str| bgp(vec![hop(s, "http://ex/p", "o")]);
    assert_eq!(q.pattern().to_algebra(), join(join(leaf_of("a"), leaf_of("b")), leaf_of("c")));
}

#[test]
fn new_with_binding_is_new_joined_with_the_continuation() {
    let mut fresh = FreshVariables::new();
    let q = ConstructQuery::new_with_binding(var("b"), node("http://ex/p"), leaf, &mut fresh);
    assert_eq!(template_of(&q), vec![hop("b", "http://ex/p", "fresh_0")]);
    assert_eq!(
        q.pattern().to_algebra(),
        join(bgp(vec![hop("b", "http://ex/p", "fresh_0")]), bgp(vec![]))
    );
    assert_eq!(fresh.remaining(), u64::MAX - 1);
    assert!(is_complete(&q));
}

#[test]
fn join_with_adds_a_constant_triple() {
    let q = ConstructQuery::empty().join_with(
        var("b"),
        node("http://www.w3.org/1999/02/22-rdf-syntax-ns#type"),
        node("http://ex/Type"),
    );
    let tag = TriplePattern {
        subject: v("b"),
        predicate: NamedNodePattern::NamedNode(n(
            "http://www.w3.org/1999/02/22-rdf-syntax-ns#type",
        )),
        object: TermPattern::NamedNode(n("http://ex/Type")),
    };
    assert_eq!(template_of(&q), vec![tag.clone()]);
    assert_eq!(q.pattern().to_algebra(), join(bgp(vec![]), bgp(vec![tag])));
    assert!(is_complete(&q));
}

#[test]
fn filter_variable_wraps_the_whole_pattern() {
    let q = ConstructQuery::new(
        Subject::Variable(var("s")),
        Predicate::NamedNode(node("http://ex/p")),
        Term::Variable(var("o")),
    )
    .filter_variable(var("s"), node("http://example.org/crazy"));
    assert_eq!(template_of(&q), vec![hop("s", "http://ex/p", "o")]);
    let expected = GraphPattern::Filter {
        expr: Expression::Equal(
            Box::new(Expression::Variable(spargebra::term::Variable::new_unchecked("s"))),
            Box::new(Expression::NamedNode(n("http://example.org/crazy"))),
        ),
        inner: Box::new(bgp(vec![hop("s", "http://ex/p", "o")])),
    };
    assert_eq!(q.pattern().to_algebra(), expected);
    assert!(is_complete(&q));
}

#[test]
fn struct_of_two_fields() {
    let mut fresh = FreshVariables::new();
    let q = two_fields(var("b"), &mut fresh);
    assert_eq!(
        template_of(&q),
        vec![
            hop("b", "http://ex/field_0", "fresh_0"),
            hop("b", "http://ex/field_1", "fresh_1")
        ]
    );
    assert_eq!(q.pattern().to_algebra(), two_fields_pattern("b", "fresh_0", "fresh_1"));
    assert!(is_complete(&q));
}

#[test]
fn enum_of_two_variants() {
    let mut fresh = FreshVariables::new();
    let q = ConstructQuery::empty()
        .union_with_binding(var("b"), node("http://ex/left"), leaf, &mut fresh)
        .union_with_binding(var("b"), node("http://ex/right"), two_fields, &mut fresh);
    assert_eq!(
        template_of(&q),
        vec![
            hop("b", "http://ex/left", "fresh_0"),
            hop("b", "http://ex/right", "fresh_1"),
            hop("fresh_1", "http://ex/field_0", "fresh_2"),
            hop("fresh_1", "http://ex/field_1", "fresh_3"),
        ]
    );
    let left = join(bgp(vec![hop("b", "http://ex/left", "fresh_0")]), bgp(vec![]));
    let right = join(
        bgp(vec![hop("b", "http://ex/right", "fresh_1")]),
        two_fields_pattern("fresh_1", "fresh_2", "fresh_3"),
    );
    assert_eq!(q.pattern().to_algebra(), union(union(bgp(vec![]), left), right));
    assert!(is_complete(&q));
}

#[test]
fn chained_hop_goes_through_an_intermediate_variable() {
    let mut fresh = FreshVariables::new();
    let q = ConstructQuery::empty().union_with_binding(
        var("b"),
        node("http://ex/left"),
        with_predicate(node("http://ex/value"), leaf),
        &mut fresh,
    );
    assert_eq!(
        template_of(&q),
        vec![
            hop("b", "http://ex/left", "fresh_0"),
            hop("fresh_0", "http://ex/value", "fresh_1"),
        ]
    );
    let inner = join(bgp(vec![hop("fresh_0", "http://ex/value", "fresh_1")]), bgp(vec![]));
    let outer = join(bgp(vec![hop("b", "http://ex/left", "fresh_0")]), inner);
    assert_eq!(q.pattern().to_algebra(), union(bgp(vec![]), outer));
    assert!(is_complete(&q));
}

#[test]
fn with_predicate_is_new_with_binding_on_the_subject() {
    let mut a = FreshVariables::new();
    let mut b = FreshVariables::new();
    let chained = with_predicate(node("http://ex/p"), two_fields)(var("s"), &mut a);
    let direct = ConstructQuery::new_with_binding(var("s"), node("http://ex/p"), two_fields, &mut b);
    assert_eq!(chained, direct);
    assert_eq!(a.remaining(), b.remaining());
    let by_hand = ConstructQuery::new(
        Subject::Variable(var("s")),
        Predicate::NamedNode(node("http://ex/p")),
        Term::Variable(FreshVariables::new().next()),
    );
    let mut c = FreshVariables::new();
    let x = c.next();
    let by_hand = by_hand.join(two_fields(x, &mut c));
    assert_eq!(chained, by_hand);
}

#[test]
fn to_query_binds_a_fresh_root() {
    let mut fresh = FreshVariables::new();
    let q = ConstructQuery::to_query(two_fields, &mut fresh);
    assert_eq!(
        template_of(&q),
        vec![
            hop("fresh_0", "http://ex/field_0", "fresh_1"),
            hop("fresh_0", "http://ex/field_1", "fresh_2")
        ]
    );
    assert!(is_complete(&q));
}

#[test]
fn leaf_takes_no_name() {
    let mut fresh = FreshVariables::new();
    let q = leaf(var("b"), &mut fresh);
    assert_eq!(q, ConstructQuery::empty());
    assert_eq!(fresh.remaining(), u64::MAX);
}

#[test]
fn into_parts_gives_template_and_pattern() {
    let mut fresh = FreshVariables::new();
    let q = two_fields(var("b"), &mut fresh);
    let (template, pattern) = q.into_parts();
    assert_eq!(template.len(), 2);
    assert_eq!(pattern.to_algebra(), two_fields_pattern("b", "fresh_0", "fresh_1"));
}
