use linked_data_sparql::{
    leaf, with_predicate, ConstructQuery, Field, FreshVariables, NamedNode, PredicatePath, Shape,
    Variable, Variant,
};
use spargebra::term::{NamedNodePattern, TermPattern, TriplePattern};
use spargebra::Query;

fn b() -> Variable {
    Variable::new("b".to_string()).unwrap()
}

fn iri(text: &str) -> NamedNode {
    NamedNode::new(text.to_string())
}

fn field(predicate: &str, shape: Shape) -> Field {
    Field { ignored: false, flattened: false, predicate: Some(iri(predicate)), shape }
}

fn flattened(shape: Shape) -> Field {
    Field { ignored: false, flattened: true, predicate: None, shape }
}

fn record(fields: Vec<Field>) -> Shape {
    Shape::Record { fields, type_iri: None }
}

fn pair() -> Shape {
    record(vec![field("http://ex/field_0", Shape::Leaf), field("http://ex/field_1", Shape::Leaf)])
}

fn pair_by_calls(binding: Variable, fresh: &mut FreshVariables) -> ConstructQuery {
    ConstructQuery::empty()
        .join_with_binding(binding.duplicate(), iri("http://ex/field_0"), leaf, fresh)
        .join_with_binding(binding, iri("http://ex/field_1"), leaf, fresh)
}

fn edge(s: &str, p: &str, o: &str) -> TriplePattern {
    TriplePattern {
        subject: TermPattern::Variable(spargebra::term::Variable::new_unchecked(s)),
        predicate: NamedNodePattern::NamedNode(spargebra::term::NamedNode::new_unchecked(p)),
        object: TermPattern::Variable(spargebra::term::Variable::new_unchecked(o)),
    }
}

fn template_of(q: &ConstructQuery) -> Vec<TriplePattern> {
    linked_data_sparql::compile::triples_to_algebra(q.template())
}

#[test]
fn leaf_shape_is_the_empty_query() {
    let mut fresh = FreshVariables::new();
    assert_eq!(Shape::Leaf.to_query_with_binding(b(), &mut fresh), ConstructQuery::empty());
    assert_eq!(fresh.remaining(), u64::MAX);
    assert_eq!(Shape::Leaf.count_names(), Some(0));
}

#[test]
fn record_shape_is_one_join_with_binding_per_field() {
    let mut by_shape = FreshVariables::new();
    let mut by_calls = FreshVariables::new();
    let q = pair().to_query_with_binding(b(), &mut by_shape);
    assert_eq!(q, pair_by_calls(b(), &mut by_calls));
    assert_eq!(by_shape.remaining(), by_calls.remaining());
    assert_eq!(
        template_of(&q),
        vec![
            edge("b", "http://ex/field_0", "fresh_0"),
            edge("b", "http://ex/field_1", "fresh_1")
        ]
    );
    assert_eq!(pair().count_names(), Some(2));
}

#[test]
fn ignored_field_adds_nothing() {
    let shape = record(vec![
        Field {
            ignored: true,
            flattened: true,
            predicate: Some(iri("http://ex/hidden")),
            shape: pair(),
        },
        field("http://ex/shown", Shape::Leaf),
    ]);
    let mut fresh = FreshVariables::new();
    let q = shape.to_query_with_binding(b(), &mut fresh);
    assert_eq!(template_of(&q), vec![edge("b", "http://ex/shown", "fresh_0")]);
    assert_eq!(shape.count_names(), Some(1));
}

#[test]
fn field_without_predicate_adds_nothing() {
    let shape = record(vec![Field {
        ignored: false,
        flattened: false,
        predicate: None,
        shape: Shape::Leaf,
    }]);
    let mut fresh = FreshVariables::new();
    assert_eq!(shape.to_query_with_binding(b(), &mut fresh), ConstructQuery::empty());
    assert_eq!(fresh.remaining(), u64::MAX);
}

#[test]
fn flattened_field_is_described_at_the_same_binding() {
    let shape = record(vec![flattened(pair())]);
    let mut by_shape = FreshVariables::new();
    let mut by_calls = FreshVariables::new();
    let q = shape.to_query_with_binding(b(), &mut by_shape);
    let expected = ConstructQuery::empty().join(pair_by_calls(b(), &mut by_calls));
    assert_eq!(q, expected);
    assert_eq!(
        template_of(&q),
        vec![
            edge("b", "http://ex/field_0", "fresh_0"),
            edge("b", "http://ex/field_1", "fresh_1")
        ]
    );
}

#[test]
fn type_tag_is_joined_last() {
    let shape = Shape::Record {
        fields: vec![field("http://ex/field", Shape::Leaf)],
        type_iri: Some(iri("http://ex/Type")),
    };
    let mut by_shape = FreshVariables::new();
    let mut by_calls = FreshVariables::new();
    let q = shape.to_query_with_binding(b(), &mut by_shape);
    let expected = ConstructQuery::empty()
        .join_with_binding(b(), iri("http://ex/field"), leaf, &mut by_calls)
        .join_with(
            b(),
            iri("http://www.w3.org/1999/02/22-rdf-syntax-ns#type"),
            iri("http://ex/Type"),
        );
    assert_eq!(q, expected);
    let tag = TriplePattern {
        subject: TermPattern::Variable(spargebra::term::Variable::new_unchecked("b")),
        predicate: NamedNodePattern::NamedNode(spargebra::term::NamedNode::new_unchecked(
            "http://www.w3.org/1999/02/22-rdf-syntax-ns#type",
        )),
        object: TermPattern::NamedNode(spargebra::term::NamedNode::new_unchecked(
            "http://ex/Type",
        )),
    };
    assert_eq!(template_of(&q), vec![edge("b", "http://ex/field", "fresh_0"), tag]);
}

#[test]
fn choice_shape_is_one_union_with_binding_per_variant() {
    let shape = Shape::Choice {
        variants: vec![
            Variant { path: PredicatePath::Predicate(iri("http://ex/left")), shape: Shape::Leaf },
            Variant { path: PredicatePath::Predicate(iri("http://ex/right")), shape: pair() },
        ],
    };
    let mut by_shape = FreshVariables::new();
    let mut by_calls = FreshVariables::new();
    let q = shape.to_query_with_binding(b(), &mut by_shape);
    let expected = ConstructQuery::empty()
        .union_with_binding(b(), iri("http://ex/left"), leaf, &mut by_calls)
        .union_with_binding(b(), iri("http://ex/right"), pair_by_calls, &mut by_calls);
    assert_eq!(q, expected);
    assert_eq!(by_shape.remaining(), by_calls.remaining());
    assert_eq!(shape.count_names(), Some(4));
}

#[test]
fn chained_path_is_union_with_binding_over_with_predicate() {
    let shape = Shape::Choice {
        variants: vec![Variant {
            path: PredicatePath::ChainedPath {
                first: iri("http://ex/left"),
                second: iri("http://ex/value"),
            },
            shape: Shape::Leaf,
        }],
    };
    let mut by_shape = FreshVariables::new();
    let mut by_calls = FreshVariables::new();
    let q = shape.to_query_with_binding(b(), &mut by_shape);
    let expected = ConstructQuery::empty().union_with_binding(
        b(),
        iri("http://ex/left"),
        with_predicate(iri("http://ex/value"), leaf),
        &mut by_calls,
    );
    assert_eq!(q, expected);
    assert_eq!(
        template_of(&q),
        vec![
            edge("b", "http://ex/left", "fresh_0"),
            edge("fresh_0", "http://ex/value", "fresh_1")
        ]
    );
    assert_eq!(shape.count_names(), Some(2));
}

#[test]
fn complex_struct_shape_compiles() {
    let struct_flatten = record(vec![flattened(pair())]);
    let complex = Shape::Record {
        fields: vec![
            Field { ignored: false, flattened: false, predicate: None, shape: Shape::Leaf },
            field("http://ex/struct_flatten", struct_flatten),
        ],
        type_iri: Some(iri("http://ex/Type")),
    };
    let mut fresh = FreshVariables::new();
    let q = complex.to_query(&mut fresh);
    assert_eq!(fresh.remaining(), u64::MAX - 4);
    match q.into_query() {
        Query::Construct { template, dataset, base_iri, .. } => {
            assert_eq!(template.len(), 4);
            assert_eq!(template[0], edge("fresh_0", "http://ex/struct_flatten", "fresh_1"));
            assert_eq!(template[1], edge("fresh_1", "http://ex/field_0", "fresh_2"));
            assert_eq!(template[2], edge("fresh_1", "http://ex/field_1", "fresh_3"));
            assert_eq!(
                template[3].to_string(),
                "?fresh_0 <http://www.w3.org/1999/02/22-rdf-syntax-ns#type> <http://ex/Type>"
            );
            assert!(dataset.is_none());
            assert!(base_iri.is_none());
        }
        other => panic!("not a CONSTRUCT query: {other:?}"),
    }
}

#[test]
fn try_to_query_refuses_when_names_run_out() {
    let mut fresh = FreshVariables::starting_at(u64::MAX - 1);
    assert!(pair().try_to_query_with_binding(b(), &mut fresh).is_none());
    assert_eq!(fresh.remaining(), 1);
    let mut fresh = FreshVariables::starting_at(u64::MAX - 2);
    let q = pair().try_to_query_with_binding(b(), &mut fresh).unwrap();
    assert_eq!(
        template_of(&q),
        vec![
            edge("b", "http://ex/field_0", "fresh_18446744073709551613"),
            edge("b", "http://ex/field_1", "fresh_18446744073709551614")
        ]
    );
    assert_eq!(fresh.remaining(), 0);
    assert!(fresh.try_next().is_none());
}

#[test]
fn root_query_can_be_pinned_to_an_identifier() {
    let mut plain = FreshVariables::new();
    let mut pinned = FreshVariables::new();
    let unfiltered = pair().to_query(&mut plain);
    let filtered = pair().to_query_for(iri("http://example.org/crazy"), &mut pinned);
    assert_eq!(plain.remaining(), pinned.remaining());
    assert_eq!(template_of(&filtered), template_of(&unfiltered));
    let expected = spargebra::algebra::GraphPattern::Filter {
        expr: spargebra::algebra::Expression::Equal(
            Box::new(spargebra::algebra::Expression::Variable(
                spargebra::term::Variable::new_unchecked("fresh_0"),
            )),
            Box::new(spargebra::algebra::Expression::NamedNode(
                spargebra::term::NamedNode::new_unchecked("http://example.org/crazy"),
            )),
        ),
        inner: Box::new(unfiltered.pattern().to_algebra()),
    };
    assert_eq!(filtered.pattern().to_algebra(), expected);
}
