//! From a composed query to the executable query object: the pattern is
//! rebuilt in the algebra of the `spargebra` crate, optimized by `sparopt`,
//! and assembled with the template.

use vstd::prelude::*;
use crate::construct_query::ConstructQuery;
use crate::pattern::{
    triples_model, EqualityModel, Pattern, PatternModel, TripleModel, Triple,
};
use crate::term::{Predicate, PredicateModel, Subject, Term, TermModel};

verus! {

#[verifier::external_type_specification]
#[verifier::external_body]
pub struct ExTermPattern(spargebra::term::TermPattern);

#[verifier::external_type_specification]
#[verifier::external_body]
pub struct ExNamedNodePattern(spargebra::term::NamedNodePattern);

#[verifier::external_type_specification]
#[verifier::external_body]
pub struct ExTriplePattern(spargebra::term::TriplePattern);

#[verifier::external_type_specification]
#[verifier::external_body]
pub struct ExGraphPattern(spargebra::algebra::GraphPattern);

#[verifier::external_type_specification]
#[verifier::external_body]
pub struct ExQuery(spargebra::Query);

/// The term pattern that is the variable named `name`.
pub uninterp spec fn variable_term(name: Seq<char>) -> spargebra::term::TermPattern;

/// The term pattern that is the named node with the lexical form `iri`.
pub uninterp spec fn named_node_term(iri: Seq<char>) -> spargebra::term::TermPattern;

/// The term pattern that is the blank node labelled `label`.
pub uninterp spec fn blank_node_term(label: Seq<char>) -> spargebra::term::TermPattern;

/// The term pattern that is the literal `lexical` of the datatype
/// `datatype`.
pub uninterp spec fn literal_term(lexical: Seq<char>, datatype: Seq<char>)
    -> spargebra::term::TermPattern;

/// The predicate pattern that is the named node with the lexical form
/// `iri`.
pub uninterp spec fn named_node_predicate(iri: Seq<char>) -> spargebra::term::NamedNodePattern;

/// The predicate pattern that is the variable named `name`.
pub uninterp spec fn variable_predicate(name: Seq<char>) -> spargebra::term::NamedNodePattern;

/// The triple pattern with these three positions.
pub uninterp spec fn triple_of(
    subject: spargebra::term::TermPattern,
    predicate: spargebra::term::NamedNodePattern,
    object: spargebra::term::TermPattern,
) -> spargebra::term::TriplePattern;

/// The basic graph pattern of these triple patterns.
pub uninterp spec fn bgp_of(patterns: Seq<spargebra::term::TriplePattern>)
    -> spargebra::algebra::GraphPattern;

/// The join of two graph patterns.
pub uninterp spec fn join_of(
    left: spargebra::algebra::GraphPattern,
    right: spargebra::algebra::GraphPattern,
) -> spargebra::algebra::GraphPattern;

/// The union of two graph patterns.
pub uninterp spec fn union_of(
    left: spargebra::algebra::GraphPattern,
    right: spargebra::algebra::GraphPattern,
) -> spargebra::algebra::GraphPattern;

/// The graph pattern `inner` under the filter `?variable = <id>`.
pub uninterp spec fn filter_of(
    variable: Seq<char>,
    id: Seq<char>,
    inner: spargebra::algebra::GraphPattern,
) -> spargebra::algebra::GraphPattern;

/// The CONSTRUCT query with this template and this WHERE pattern, without
/// a dataset clause and without a base IRI.
pub uninterp spec fn construct_of(
    template: Seq<spargebra::term::TriplePattern>,
    pattern: spargebra::algebra::GraphPattern,
) -> spargebra::Query;

/// `Variable::new_unchecked` of oxrdf, as `spargebra::term` hands it on,
/// in the variant `TermPattern::Variable`. The result is a function of the
/// name, which is stored as it is.
#[verifier::external_body]
fn term_variable(name: &str) -> (r: spargebra::term::TermPattern)
    ensures
        r == variable_term(name@),
{
    spargebra::term::TermPattern::Variable(spargebra::term::Variable::new_unchecked(name))
}

/// `NamedNode::new_unchecked`, in the variant `TermPattern::NamedNode`.
/// The result is a function of the lexical form, which is not validated.
#[verifier::external_body]
fn term_named_node(iri: &str) -> (r: spargebra::term::TermPattern)
    ensures
        r == named_node_term(iri@),
{
    spargebra::term::TermPattern::NamedNode(spargebra::term::NamedNode::new_unchecked(iri))
}

/// `BlankNode::new_unchecked`, in the variant `TermPattern::BlankNode`.
/// The result is a function of the label.
#[verifier::external_body]
fn term_blank_node(label: &str) -> (r: spargebra::term::TermPattern)
    ensures
        r == blank_node_term(label@),
{
    spargebra::term::TermPattern::BlankNode(spargebra::term::BlankNode::new_unchecked(label))
}

/// `Literal::new_typed_literal` on a datatype made by
/// `NamedNode::new_unchecked`, in the variant `TermPattern::Literal`. The
/// result is a function of the lexical form and the datatype's IRI.
#[verifier::external_body]
fn term_literal(lexical: &str, datatype: &str) -> (r: spargebra::term::TermPattern)
    ensures
        r == literal_term(lexical@, datatype@),
{
    spargebra::term::TermPattern::Literal(
        spargebra::term::Literal::new_typed_literal(
            lexical,
            spargebra::term::NamedNode::new_unchecked(datatype),
        ),
    )
}

/// `NamedNode::new_unchecked`, in the variant `NamedNodePattern::NamedNode`.
#[verifier::external_body]
fn predicate_named_node(iri: &str) -> (r: spargebra::term::NamedNodePattern)
    ensures
        r == named_node_predicate(iri@),
{
    spargebra::term::NamedNodePattern::NamedNode(spargebra::term::NamedNode::new_unchecked(iri))
}

/// `Variable::new_unchecked`, in the variant `NamedNodePattern::Variable`.
#[verifier::external_body]
fn predicate_variable(name: &str) -> (r: spargebra::term::NamedNodePattern)
    ensures
        r == variable_predicate(name@),
{
    spargebra::term::NamedNodePattern::Variable(spargebra::term::Variable::new_unchecked(name))
}

/// The struct `spargebra::term::TriplePattern`, made of its three fields.
#[verifier::external_body]
fn triple(
    subject: spargebra::term::TermPattern,
    predicate: spargebra::term::NamedNodePattern,
    object: spargebra::term::TermPattern,
) -> (r: spargebra::term::TriplePattern)
    ensures
        r == triple_of(subject, predicate, object),
{
    spargebra::term::TriplePattern { subject, predicate, object }
}

/// The variant `GraphPattern::Bgp` of `spargebra::algebra`, holding the
/// triple patterns in the order given.
#[verifier::external_body]
fn bgp(patterns: Vec<spargebra::term::TriplePattern>) -> (r: spargebra::algebra::GraphPattern)
    ensures
        r == bgp_of(patterns@),
{
    spargebra::algebra::GraphPattern::Bgp { patterns }
}

/// The variant `GraphPattern::Join`, `left` and `right` as given.
#[verifier::external_body]
fn join(
    left: spargebra::algebra::GraphPattern,
    right: spargebra::algebra::GraphPattern,
) -> (r: spargebra::algebra::GraphPattern)
    ensures
        r == join_of(left, right),
{
    spargebra::algebra::GraphPattern::Join { left: Box::new(left), right: Box::new(right) }
}

/// The variant `GraphPattern::Union`, `left` and `right` as given.
#[verifier::external_body]
fn union(
    left: spargebra::algebra::GraphPattern,
    right: spargebra::algebra::GraphPattern,
) -> (r: spargebra::algebra::GraphPattern)
    ensures
        r == union_of(left, right),
{
    spargebra::algebra::GraphPattern::Union { left: Box::new(left), right: Box::new(right) }
}

/// The variant `GraphPattern::Filter` over `inner`, with the expression
/// `Expression::Equal` of the variable named `variable` and the named node
/// `id`.
#[verifier::external_body]
fn filter_equal(variable: &str, id: &str, inner: spargebra::algebra::GraphPattern) -> (r:
    spargebra::algebra::GraphPattern)
    ensures
        r == filter_of(variable@, id@, inner),
{
    let left = spargebra::algebra::Expression::Variable(
        spargebra::term::Variable::new_unchecked(variable),
    );
    let right = spargebra::algebra::Expression::NamedNode(
        spargebra::term::NamedNode::new_unchecked(id),
    );
    spargebra::algebra::GraphPattern::Filter {
        expr: spargebra::algebra::Expression::Equal(Box::new(left), Box::new(right)),
        inner: Box::new(inner),
    }
}

/// `Optimizer::optimize_graph_pattern` of sparopt, between the two
/// conversions that lead from spargebra's algebra to sparopt's and back.
/// Nothing is stated of the result: the optimizer is free in its rewrites,
/// and it names blank nodes by chance.
#[verifier::external_body]
fn optimized(pattern: &spargebra::algebra::GraphPattern) -> (r: spargebra::algebra::GraphPattern) {
    (&sparopt::Optimizer::optimize_graph_pattern(pattern.into())).into()
}

/// The variant `Query::Construct` of spargebra, with `dataset` and
/// `base_iri` both `None`.
#[verifier::external_body]
fn construct(
    template: Vec<spargebra::term::TriplePattern>,
    pattern: spargebra::algebra::GraphPattern,
) -> (r: spargebra::Query)
    ensures
        r == construct_of(template@, pattern),
{
    spargebra::Query::Construct { template, dataset: None, pattern, base_iri: None }
}

/// The term pattern of the algebra that stands for a term.
pub open spec fn term_algebra(t: TermModel) -> spargebra::term::TermPattern {
    match t {
        TermModel::Variable(name) => variable_term(name),
        TermModel::NamedNode(iri) => named_node_term(iri),
        TermModel::BlankNode(label) => blank_node_term(label),
        TermModel::Literal(lexical, datatype) => literal_term(lexical, datatype),
    }
}

/// The predicate pattern of the algebra that stands for a predicate.
pub open spec fn predicate_algebra(p: PredicateModel) -> spargebra::term::NamedNodePattern {
    match p {
        PredicateModel::NamedNode(iri) => named_node_predicate(iri),
        PredicateModel::Variable(name) => variable_predicate(name),
    }
}

/// The triple pattern of the algebra that stands for a triple pattern.
pub open spec fn triple_algebra(t: TripleModel) -> spargebra::term::TriplePattern {
    triple_of(term_algebra(t.subject), predicate_algebra(t.predicate), term_algebra(t.object))
}

/// The triple patterns of the algebra that stand for a sequence of triple
/// patterns, in order.
pub open spec fn triples_algebra(triples: Seq<TripleModel>) -> Seq<
    spargebra::term::TriplePattern,
> {
    Seq::new(triples.len(), |i: int| triple_algebra(triples[i]))
}

/// The graph pattern of the algebra that stands for a graph pattern: node
/// for node the same tree.
pub open spec fn pattern_algebra(p: PatternModel) -> spargebra::algebra::GraphPattern
    decreases p,
{
    match p {
        PatternModel::Basic(triples) => bgp_of(triples_algebra(triples)),
        PatternModel::Join(left, right) => join_of(pattern_algebra(*left), pattern_algebra(*right)),
        PatternModel::Union(left, right) => union_of(
            pattern_algebra(*left),
            pattern_algebra(*right),
        ),
        PatternModel::Filter(condition, inner) => filter_of(
            condition.variable,
            condition.id,
            pattern_algebra(*inner),
        ),
    }
}

impl Term {
    /// The term in the algebra.
    pub fn to_algebra(&self) -> (r: spargebra::term::TermPattern)
        ensures
            r == term_algebra(self@),
    {
        match self {
            Term::Variable(v) => term_variable(v.as_str()),
            Term::NamedNode(n) => term_named_node(n.as_str()),
            Term::BlankNode(b) => term_blank_node(b.as_str()),
            Term::Literal { lexical, datatype } => term_literal(
                lexical.as_str(),
                datatype.as_str(),
            ),
        }
    }
}

impl Subject {
    /// The subject in the algebra.
    pub fn to_algebra(&self) -> (r: spargebra::term::TermPattern)
        ensures
            r == term_algebra(self@),
    {
        match self {
            Subject::Variable(v) => term_variable(v.as_str()),
            Subject::NamedNode(n) => term_named_node(n.as_str()),
            Subject::BlankNode(b) => term_blank_node(b.as_str()),
        }
    }
}

impl Predicate {
    /// The predicate in the algebra.
    pub fn to_algebra(&self) -> (r: spargebra::term::NamedNodePattern)
        ensures
            r == predicate_algebra(self@),
    {
        match self {
            Predicate::NamedNode(n) => predicate_named_node(n.as_str()),
            Predicate::Variable(v) => predicate_variable(v.as_str()),
        }
    }
}

impl Triple {
    /// The triple pattern in the algebra.
    pub fn to_algebra(&self) -> (r: spargebra::term::TriplePattern)
        ensures
            r == triple_algebra(self@),
    {
        triple(self.subject.to_algebra(), self.predicate.to_algebra(), self.object.to_algebra())
    }
}

/// The triple patterns in the algebra, in the same order.
pub fn triples_to_algebra(triples: &Vec<Triple>) -> (r: Vec<spargebra::term::TriplePattern>)
    ensures
        r@ == triples_algebra(triples_model(triples@)),
{
    let mut out: Vec<spargebra::term::TriplePattern> = Vec::new();
    let mut i: usize = 0;
    while i < triples.len()
        invariant
            i <= triples.len(),
            out.len() == i,
            forall|j: int| 0 <= j < i ==> out[j] == triple_algebra(triples[j]@),
        decreases triples.len() - i,
    {
        out.push(triples[i].to_algebra());
        i += 1;
    }
    assert(out@ =~= triples_algebra(triples_model(triples@)));
    out
}

impl Pattern {
    /// The graph pattern in the algebra: the same tree, node for node.
    pub fn to_algebra(&self) -> (r: spargebra::algebra::GraphPattern)
        ensures
            r == pattern_algebra(self@),
        decreases self,
    {
        match self {
            Pattern::Basic(triples) => bgp(triples_to_algebra(triples)),
            Pattern::Join(left, right) => join(left.to_algebra(), right.to_algebra()),
            Pattern::Union(left, right) => union(left.to_algebra(), right.to_algebra()),
            Pattern::Filter(condition, inner) => filter_equal(
                condition.variable.as_str(),
                condition.id.as_str(),
                inner.to_algebra(),
            ),
        }
    }

    /// The pattern as the optimizer rewrote it. The optimizer decides the
    /// result; what it is handed is this pattern in the algebra.
    pub(crate) fn optimize(&self) -> (r: spargebra::algebra::GraphPattern) {
        let pattern = self.to_algebra();
        optimized(&pattern)
    }
}

impl ConstructQuery {
    /// The executable query of this template and of `pattern`, which
    /// stands for this query's own pattern after optimization: a CONSTRUCT
    /// query without dataset clause and without base IRI.
    pub fn assemble(self, pattern: spargebra::algebra::GraphPattern) -> (r: spargebra::Query)
        ensures
            r == construct_of(triples_algebra(self@.template), pattern),
    {
        let template = triples_to_algebra(self.template());
        construct(template, pattern)
    }

    /// The executable query: the template as it is, over the pattern as
    /// the optimizer rewrote it. The query is used up.
    pub fn into_query(self) -> (r: spargebra::Query)
        ensures
            exists|pattern: spargebra::algebra::GraphPattern|
                r == #[trigger] construct_of(triples_algebra(self@.template), pattern),
    {
        let pattern = self.pattern().optimize();
        self.assemble(pattern)
    }
}

} // verus!
