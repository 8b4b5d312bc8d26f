use linked_data_sparql::{
    leaf, sparql_algebra, to_query, ConstructQuery, Equality, FreshVariables, NamedNode, Pattern,
    Predicate, Subject, Term, ToConstructQuery, Triple, Variable,
};
use spargebra::algebra::GraphPattern;
use spargebra::term::{NamedNodePattern, TermPattern, TriplePattern};
use spargebra::Query;

fn var(name: &str) -> Variable {
    Variable::new(name.to_string()).unwrap()
}

fn node(iri: &str) -> NamedNode {
    NamedNode::new(iri.to_string())
}

fn sp_var(name: &str) -> spargebra::term::Variable {
    spargebra::term::Variable::new_unchecked(name)
}

fn sp_node(iri: &str) -> spargebra::term::NamedNode {
    spargebra::term::NamedNode::new_unchecked(iri)
}

fn sp_hop(s: &str, p: &str, o: &str) -> TriplePattern {
    TriplePattern {
        subject: TermPattern::Variable(sp_var(s)),
        predicate: NamedNodePattern::NamedNode(sp_node(p)),
        object: TermPattern::Variable(sp_var(o)),
    }
}

fn collect(pattern: &GraphPattern, out: &mut Vec<String>) {
    match pattern {
        GraphPattern::Bgp { patterns } => {
            for t in patterns {
                out.push(t.to_string());
            }
        }
        GraphPattern::Join { left, right } | GraphPattern::Union { left, right } => {
            collect(left, out);
            collect(right, out);
        }
        GraphPattern::Filter { inner, .. } => collect(inner, out),
        other => panic!("unexpected node {other:?}"),
    }
}

struct Record;

impl ToConstructQuery for Record {
    fn to_query_with_binding(binding: Variable, fresh: &mut FreshVariables) -> ConstructQuery {
        ConstructQuery::empty()
            .join_with_binding(binding.duplicate(), node("http://ex/field_0"), leaf, fresh)
            .join_with_binding(binding, node("http://ex/field_1"), leaf, fresh)
    }
}

#[test]
fn terms_convert_variant_by_variant() {
    assert_eq!(Term::Variable(var("x")).to_algebra(), TermPattern::Variable(sp_var("x")));
    assert_eq!(
        Term::NamedNode(node("http://ex/a")).to_algebra(),
        TermPattern::NamedNode(sp_node("http://ex/a"))
    );
    assert_eq!(
        Term::BlankNode("b0".to_string()).to_algebra(),
        TermPattern::BlankNode(spargebra::term::BlankNode::new_unchecked("b0"))
    );
    assert_eq!(
        Term::Literal {
            lexical: "12".to_string(),
            datatype: node("http://www.w3.org/2001/XMLSchema#integer")
        }
        .to_algebra(),
        TermPattern::Literal(spargebra::term::Literal::new_typed_literal(
            "12",
            sp_node("http://www.w3.org/2001/XMLSchema#integer")
        ))
    );
}

#[test]
fn subjects_and_predicates_convert_variant_by_variant() {
    assert_eq!(Subject::Variable(var("x")).to_algebra(), TermPattern::Variable(sp_var("x")));
    assert_eq!(
        Subject::NamedNode(node("urn:s")).to_algebra(),
        TermPattern::NamedNode(sp_node("urn:s"))
    );
    assert_eq!(
        Subject::BlankNode("b".to_string()).to_algebra(),
        TermPattern::BlankNode(spargebra::term::BlankNode::new_unchecked("b"))
    );
    assert_eq!(
        Predicate::NamedNode(node("http://ex/p")).to_algebra(),
        NamedNodePattern::NamedNode(sp_node("http://ex/p"))
    );
    assert_eq!(
        Predicate::Variable(var("p")).to_algebra(),
        NamedNodePattern::Variable(sp_var("p"))
    );
}

#[test]
fn triple_converts_position_by_position() {
    let t = Triple::new(
        Subject::NamedNode(node("urn:s")),
        Predicate::Variable(var("p")),
        Term::Literal {
            lexical: "v".to_string(),
            datatype: node("http://www.w3.org/2001/XMLSchema#string"),
        },
    );
    let expected = TriplePattern {
        subject: TermPattern::NamedNode(sp_node("urn:s")),
        predicate: NamedNodePattern::Variable(sp_var("p")),
        object: TermPattern::Literal(spargebra::term::Literal::new_simple_literal("v")),
    };
    assert_eq!(t.to_algebra(), expected);
    assert_eq!(t.duplicate(), t);
}

#[test]
fn pattern_converts_node_by_node() {
    let triple = |s: &str| {
        Triple::new(
            Subject::Variable(var(s)),
            Predicate::NamedNode(node("http://ex/p")),
            Term::Variable(var("o")),
        )
    };
    let p = Pattern::filter(
        Equality { variable: var("a"), id: node("urn:id") },
        Pattern::basic(vec![triple("a")])
            .join(Pattern::empty())
            .union(Pattern::basic(vec![triple("b"), triple("c")])),
    );
    let expected = GraphPattern::Filter {
        expr: spargebra::algebra::Expression::Equal(
            Box::new(spargebra::algebra::Expression::Variable(sp_var("a"))),
            Box::new(spargebra::algebra::Expression::NamedNode(sp_node("urn:id"))),
        ),
        inner: Box::new(GraphPattern::Union {
            left: Box::new(GraphPattern::Join {
                left: Box::new(GraphPattern::Bgp {
                    patterns: vec![sp_hop("a", "http://ex/p", "o")],
                }),
                right: Box::new(GraphPattern::Bgp { patterns: vec![] }),
            }),
            right: Box::new(GraphPattern::Bgp {
                patterns: vec![sp_hop("b", "http://ex/p", "o"), sp_hop("c", "http://ex/p", "o")],
            }),
        }),
    };
    assert_eq!(p.to_algebra(), expected);
}

#[test]
fn assemble_takes_the_pattern_it_is_given() {
    let mut fresh = FreshVariables::new();
    let q = Record::to_query_with_binding(var("b"), &mut fresh);
    let given = GraphPattern::Bgp { patterns: vec![sp_hop("x", "http://ex/y", "z")] };
    let expected = Query::Construct {
        template: vec![
            sp_hop("b", "http://ex/field_0", "fresh_0"),
            sp_hop("b", "http://ex/field_1", "fresh_1"),
        ],
        dataset: None,
        pattern: given.clone(),
        base_iri: None,
    };
    assert_eq!(q.assemble(given), expected);
}

#[test]
fn struct_query_compiles_to_its_two_triples() {
    let mut fresh = FreshVariables::new();
    let q = Record::to_query_with_binding(var("b"), &mut fresh);
    match q.into_query() {
        Query::Construct { template, dataset, pattern, base_iri } => {
            assert_eq!(
                template,
                vec![
                    sp_hop("b", "http://ex/field_0", "fresh_0"),
                    sp_hop("b", "http://ex/field_1", "fresh_1"),
                ]
            );
            assert!(dataset.is_none());
            assert!(base_iri.is_none());
            let mut found = Vec::new();
            collect(&pattern, &mut found);
            found.sort();
            let mut expected = vec![
                sp_hop("b", "http://ex/field_0", "fresh_0").to_string(),
                sp_hop("b", "http://ex/field_1", "fresh_1").to_string(),
            ];
            expected.sort();
            assert_eq!(found, expected);
        }
        other => panic!("not a CONSTRUCT query: {other:?}"),
    }
}

#[test]
fn root_query_of_a_type_starts_at_the_first_fresh_name() {
    let mut fresh = FreshVariables::new();
    let q = to_query::<Record>(&mut fresh);
    let template = linked_data_sparql::compile::triples_to_algebra(q.template());
    assert_eq!(
        template,
        vec![
            sp_hop("fresh_0", "http://ex/field_0", "fresh_1"),
            sp_hop("fresh_0", "http://ex/field_1", "fresh_2"),
        ]
    );
    assert_eq!(fresh.remaining(), u64::MAX - 3);
}

#[test]
fn sparql_algebra_of_a_type_is_a_construct_query() {
    match sparql_algebra::<Record>() {
        Query::Construct { template, dataset, base_iri, .. } => {
            assert_eq!(
                template,
                vec![
                    sp_hop("fresh_0", "http://ex/field_0", "fresh_1"),
                    sp_hop("fresh_0", "http://ex/field_1", "fresh_2"),
                ]
            );
            assert!(dataset.is_none());
            assert!(base_iri.is_none());
        }
        other => panic!("not a CONSTRUCT query: {other:?}"),
    }
}

#[test]
fn leaf_types_describe_nothing() {
    let mut fresh = FreshVariables::new();
    assert_eq!(u8::to_query_with_binding(var("b"), &mut fresh), ConstructQuery::empty());
    assert_eq!(u64::to_query_with_binding(var("b"), &mut fresh), ConstructQuery::empty());
    assert_eq!(i32::to_query_with_binding(var("b"), &mut fresh), ConstructQuery::empty());
    assert_eq!(String::to_query_with_binding(var("b"), &mut fresh), ConstructQuery::empty());
    assert_eq!(Variable::to_query_with_binding(var("b"), &mut fresh), ConstructQuery::empty());
    assert_eq!(
        xsd_types::DateTime::to_query_with_binding(var("b"), &mut fresh),
        ConstructQuery::empty()
    );
    assert_eq!(fresh.remaining(), u64::MAX);
    match sparql_algebra::<String>() {
        Query::Construct { template, .. } => assert!(template.is_empty()),
        other => panic!("not a CONSTRUCT query: {other:?}"),
    }
}
