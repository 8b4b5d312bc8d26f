//! Triple patterns and the graph patterns that a WHERE clause is made of.

use vstd::prelude::*;
use crate::term::{
    predicate_variables, term_variables, NamedNode, Predicate, PredicateModel, Subject, Term,
    TermModel, Variable,
};

verus! {

/// What a triple pattern is, as a mathematical value.
pub struct TripleModel {
    pub subject: TermModel,
    pub predicate: PredicateModel,
    pub object: TermModel,
}

/// A triple pattern: each position a constant or a variable.
#[derive(Debug, PartialEq, Eq)]
pub struct Triple {
    pub subject: Subject,
    pub predicate: Predicate,
    pub object: Term,
}

impl View for Triple {
    type V = TripleModel;

    open spec fn view(&self) -> TripleModel {
        TripleModel { subject: self.subject@, predicate: self.predicate@, object: self.object@ }
    }
}

impl Triple {
    /// The triple pattern with these three positions.
    pub fn new(subject: Subject, predicate: Predicate, object: Term) -> (r: Triple)
        ensures
            r@ == (TripleModel { subject: subject@, predicate: predicate@, object: object@ }),
    {
        Triple { subject, predicate, object }
    }

    /// A copy of the triple pattern.
    pub fn duplicate(&self) -> (r: Triple)
        ensures
            r@ == self@,
    {
        Triple {
            subject: self.subject.duplicate(),
            predicate: self.predicate.duplicate(),
            object: self.object.duplicate(),
        }
    }
}

/// The views of a sequence of triple patterns, in order.
pub open spec fn triples_model(triples: Seq<Triple>) -> Seq<TripleModel> {
    Seq::new(triples.len(), |i: int| triples[i]@)
}

/// A copy of a list of triple patterns, in the same order.
pub fn duplicate_triples(triples: &Vec<Triple>) -> (r: Vec<Triple>)
    ensures
        triples_model(r@) == triples_model(triples@),
{
    let mut copy: Vec<Triple> = Vec::new();
    let mut i: usize = 0;
    while i < triples.len()
        invariant
            i <= triples.len(),
            copy.len() == i,
            forall|j: int| 0 <= j < i ==> copy[j]@ == triples[j]@,
        decreases triples.len() - i,
    {
        copy.push(triples[i].duplicate());
        i += 1;
    }
    assert(triples_model(copy@) =~= triples_model(triples@));
    copy
}

/// The one condition that a filter carries: a variable equals a constant
/// identifier.
#[derive(Debug, PartialEq, Eq)]
pub struct Equality {
    pub variable: Variable,
    pub id: NamedNode,
}

/// What an equality condition is, as a mathematical value.
pub struct EqualityModel {
    pub variable: Seq<char>,
    pub id: Seq<char>,
}

impl View for Equality {
    type V = EqualityModel;

    open spec fn view(&self) -> EqualityModel {
        EqualityModel { variable: self.variable@, id: self.id@ }
    }
}

/// What a graph pattern is, as a mathematical value: a binary tree over
/// basic patterns.
pub enum PatternModel {
    Basic(Seq<TripleModel>),
    Join(Box<PatternModel>, Box<PatternModel>),
    Union(Box<PatternModel>, Box<PatternModel>),
    Filter(EqualityModel, Box<PatternModel>),
}

/// A graph pattern, built as a binary tree and never rewritten here.
#[derive(Debug, PartialEq, Eq)]
pub enum Pattern {
    Basic(Vec<Triple>),
    Join(Box<Pattern>, Box<Pattern>),
    Union(Box<Pattern>, Box<Pattern>),
    Filter(Equality, Box<Pattern>),
}

impl View for Pattern {
    type V = PatternModel;

    open spec fn view(&self) -> PatternModel {
        self.model()
    }
}

impl Pattern {
    /// The tree that the pattern is, over the views of its triple patterns
    /// and conditions.
    pub open spec fn model(&self) -> PatternModel
        decreases self,
    {
        match self {
            Pattern::Basic(triples) => PatternModel::Basic(triples_model(triples@)),
            Pattern::Join(left, right) => PatternModel::Join(
                Box::new(left.model()),
                Box::new(right.model()),
            ),
            Pattern::Union(left, right) => PatternModel::Union(
                Box::new(left.model()),
                Box::new(right.model()),
            ),
            Pattern::Filter(condition, inner) => PatternModel::Filter(
                condition@,
                Box::new(inner.model()),
            ),
        }
    }

    /// The basic pattern that matches everything once: no triple pattern.
    pub fn empty() -> (r: Pattern)
        ensures
            r@ == PatternModel::Basic(Seq::empty()),
    {
        let r = Pattern::Basic(Vec::new());
        assert(triples_model(Seq::empty()) =~= Seq::empty());
        r
    }

    /// The basic pattern of these triple patterns, in this order.
    pub fn basic(triples: Vec<Triple>) -> (r: Pattern)
        ensures
            r@ == PatternModel::Basic(triples_model(triples@)),
    {
        Pattern::Basic(triples)
    }

    /// Both patterns must match: a join node over the two, left and right
    /// as given, with nothing flattened.
    pub fn join(self, other: Pattern) -> (r: Pattern)
        ensures
            r@ == PatternModel::Join(Box::new(self@), Box::new(other@)),
    {
        Pattern::Join(Box::new(self), Box::new(other))
    }

    /// Either pattern may match: a union node over the two, left and right
    /// as given.
    pub fn union(self, other: Pattern) -> (r: Pattern)
        ensures
            r@ == PatternModel::Union(Box::new(self@), Box::new(other@)),
    {
        Pattern::Union(Box::new(self), Box::new(other))
    }

    /// The solutions of `inner` in which `condition` holds: a filter node
    /// over `inner`.
    pub fn filter(condition: Equality, inner: Pattern) -> (r: Pattern)
        ensures
            r@ == PatternModel::Filter(condition@, Box::new(inner@)),
    {
        Pattern::Filter(condition, Box::new(inner))
    }
}

/// The variables that occur in a triple pattern.
pub open spec fn triple_variables(t: TripleModel) -> Set<Seq<char>> {
    term_variables(t.subject) + predicate_variables(t.predicate) + term_variables(t.object)
}

/// The variables that occur in some triple pattern of a sequence.
pub open spec fn triples_variables(triples: Seq<TripleModel>) -> Set<Seq<char>> {
    Set::new(
        |name: Seq<char>|
            exists|i: int|
                0 <= i < triples.len() && #[trigger] triple_variables(triples[i]).contains(name),
    )
}

/// The variables that a graph pattern binds: those of its triple patterns,
/// on either side of a join or a union, and under a filter. The condition
/// of a filter binds nothing.
pub open spec fn pattern_variables(p: PatternModel) -> Set<Seq<char>>
    decreases p,
{
    match p {
        PatternModel::Basic(triples) => triples_variables(triples),
        PatternModel::Join(left, right) => pattern_variables(*left) + pattern_variables(*right),
        PatternModel::Union(left, right) => pattern_variables(*left) + pattern_variables(*right),
        PatternModel::Filter(_, inner) => pattern_variables(*inner),
    }
}

/// The variables of two sequences put end to end are those of the first
/// and those of the second.
pub proof fn lemma_variables_of_concatenation(a: Seq<TripleModel>, b: Seq<TripleModel>)
    ensures
        triples_variables(a + b) == triples_variables(a) + triples_variables(b),
{
    assert forall|name: Seq<char>|
        triples_variables(a + b).contains(name) <==> (triples_variables(a) + triples_variables(
            b,
        )).contains(name) by {
        if triples_variables(a + b).contains(name) {
            let i = choose|i: int|
                0 <= i < (a + b).len() && #[trigger] triple_variables((a + b)[i]).contains(name);
            if i < a.len() {
                assert(triple_variables(a[i]).contains(name));
            } else {
                assert(triple_variables(b[i - a.len()]).contains(name));
            }
        }
        if triples_variables(a).contains(name) {
            let i = choose|i: int|
                0 <= i < a.len() && #[trigger] triple_variables(a[i]).contains(name);
            assert(triple_variables((a + b)[i]).contains(name));
        }
        if triples_variables(b).contains(name) {
            let i = choose|i: int|
                0 <= i < b.len() && #[trigger] triple_variables(b[i]).contains(name);
            assert(triple_variables((a + b)[i + a.len()]).contains(name));
        }
    }
    assert(triples_variables(a + b) =~= triples_variables(a) + triples_variables(b));
}

} // verus!
