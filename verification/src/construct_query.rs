//! The CONSTRUCT query under construction: a template and the graph
//! pattern that binds it, with the operators that compose two of them.

use vstd::prelude::*;
use crate::fresh::{fresh_name, FreshVariables};
use crate::pattern::{
    duplicate_triples, lemma_variables_of_concatenation, pattern_variables, triples_model,
    triples_variables, Equality, EqualityModel, Pattern, PatternModel, TripleModel,
    Triple,
};
use crate::term::{NamedNode, Predicate, PredicateModel, Subject, Term, TermModel, Variable};

verus! {

/// What a query under construction is, as a mathematical value.
pub struct ConstructModel {
    pub template: Seq<TripleModel>,
    pub pattern: PatternModel,
}

impl ConstructModel {
    /// The query that adds nothing: no template triple, and the basic
    /// pattern without triple patterns.
    pub open spec fn empty() -> ConstructModel {
        ConstructModel { template: Seq::empty(), pattern: PatternModel::Basic(Seq::empty()) }
    }

    /// The query of one triple pattern, which is its whole template and
    /// its whole pattern.
    pub open spec fn single(triple: TripleModel) -> ConstructModel {
        ConstructModel { template: seq![triple], pattern: PatternModel::Basic(seq![triple]) }
    }

    /// Both queries: the templates end to end, the patterns joined.
    pub open spec fn join(self, other: ConstructModel) -> ConstructModel {
        ConstructModel {
            template: self.template + other.template,
            pattern: PatternModel::Join(Box::new(self.pattern), Box::new(other.pattern)),
        }
    }

    /// Either query: the templates end to end, the patterns united.
    pub open spec fn union(self, other: ConstructModel) -> ConstructModel {
        ConstructModel {
            template: self.template + other.template,
            pattern: PatternModel::Union(Box::new(self.pattern), Box::new(other.pattern)),
        }
    }

    /// The query with its whole pattern under a filter, the template as
    /// it was.
    pub open spec fn filter(self, condition: EqualityModel) -> ConstructModel {
        ConstructModel {
            template: self.template,
            pattern: PatternModel::Filter(condition, Box::new(self.pattern)),
        }
    }

    /// One hop: the triple from the variable `subject` over the named node
    /// `predicate` to the variable `object`, joined with what `rest` says
    /// of that object.
    pub open spec fn hop(
        subject: Seq<char>,
        predicate: Seq<char>,
        object: Seq<char>,
        rest: ConstructModel,
    ) -> ConstructModel {
        ConstructModel::single(
            TripleModel {
                subject: TermModel::Variable(subject),
                predicate: PredicateModel::NamedNode(predicate),
                object: TermModel::Variable(object),
            },
        ).join(rest)
    }

    /// Template-completeness: every variable of the template occurs in a
    /// triple pattern of the graph pattern.
    pub open spec fn is_complete(self) -> bool {
        triples_variables(self.template).subset_of(pattern_variables(self.pattern))
    }
}

/// The empty query is complete.
pub proof fn lemma_empty_is_complete()
    ensures
        ConstructModel::empty().is_complete(),
{
}

/// The query of one triple pattern is complete.
pub proof fn lemma_single_is_complete(triple: TripleModel)
    ensures
        ConstructModel::single(triple).is_complete(),
{
}

/// Joining keeps completeness.
pub proof fn lemma_join_keeps_complete(a: ConstructModel, b: ConstructModel)
    requires
        a.is_complete(),
        b.is_complete(),
    ensures
        a.join(b).is_complete(),
{
    lemma_variables_of_concatenation(a.template, b.template);
}

/// Uniting keeps completeness.
pub proof fn lemma_union_keeps_complete(a: ConstructModel, b: ConstructModel)
    requires
        a.is_complete(),
        b.is_complete(),
    ensures
        a.union(b).is_complete(),
{
    lemma_variables_of_concatenation(a.template, b.template);
}

/// Filtering keeps completeness.
pub proof fn lemma_filter_keeps_complete(a: ConstructModel, condition: EqualityModel)
    requires
        a.is_complete(),
    ensures
        a.filter(condition).is_complete(),
{
}

/// A hop keeps completeness.
pub proof fn lemma_hop_keeps_complete(
    subject: Seq<char>,
    predicate: Seq<char>,
    object: Seq<char>,
    rest: ConstructModel,
)
    requires
        rest.is_complete(),
    ensures
        ConstructModel::hop(subject, predicate, object, rest).is_complete(),
{
    let triple = TripleModel {
        subject: TermModel::Variable(subject),
        predicate: PredicateModel::NamedNode(predicate),
        object: TermModel::Variable(object),
    };
    lemma_single_is_complete(triple);
    lemma_join_keeps_complete(ConstructModel::single(triple), rest);
}

/// A CONSTRUCT query under construction.
#[derive(Debug, PartialEq, Eq)]
pub struct ConstructQuery {
    template: Vec<Triple>,
    pattern: Pattern,
}

impl View for ConstructQuery {
    type V = ConstructModel;

    closed spec fn view(&self) -> ConstructModel {
        ConstructModel { template: triples_model(self.template@), pattern: self.pattern@ }
    }
}

impl ConstructQuery {
    /// What holds of every query: its template is bound by its pattern.
    #[verifier::type_invariant]
    closed spec fn bound(self) -> bool {
        self@.is_complete()
    }

    /// Template-completeness: in every query, however it was composed,
    /// each variable of the template occurs in a triple pattern of the
    /// graph pattern.
    pub fn template_is_bound(&self)
        ensures
            self@.is_complete(),
    {
        proof {
            use_type_invariant(self);
        }
    }

    /// The query that a leaf value contributes: nothing.
    pub fn empty() -> (r: ConstructQuery)
        ensures
            r@ == ConstructModel::empty(),
            r@.is_complete(),
    {
        let template: Vec<Triple> = Vec::new();
        assert(triples_model(template@) =~= Seq::empty());
        ConstructQuery { template, pattern: Pattern::empty() }
    }

    /// The query whose template and pattern both consist of the one
    /// triple pattern `(subject, predicate, object)`.
    pub fn new(subject: Subject, predicate: Predicate, object: Term) -> (r: ConstructQuery)
        ensures
            r@ == ConstructModel::single(
                TripleModel { subject: subject@, predicate: predicate@, object: object@ },
            ),
            r@.is_complete(),
    {
        let triple = Triple::new(subject, predicate, object);
        let mut template: Vec<Triple> = Vec::new();
        let mut patterns: Vec<Triple> = Vec::new();
        template.push(triple.duplicate());
        patterns.push(triple);
        assert(triples_model(template@) =~= seq![triple@]);
        assert(triples_model(patterns@) =~= seq![triple@]);
        ConstructQuery { template, pattern: Pattern::basic(patterns) }
    }

    /// The template: the triples that the query constructs, in order.
    pub fn template(&self) -> (r: &Vec<Triple>)
        ensures
            triples_model(r@) == self@.template,
    {
        &self.template
    }

    /// The WHERE clause's graph pattern.
    pub fn pattern(&self) -> (r: &Pattern)
        ensures
            r@ == self@.pattern,
    {
        &self.pattern
    }

    /// The query split into its template and its pattern.
    pub fn into_parts(self) -> (r: (Vec<Triple>, Pattern))
        ensures
            triples_model(r.0@) == self@.template,
            r.1@ == self@.pattern,
    {
        (self.template, self.pattern)
    }

    /// Both queries must match: `other`'s template follows this one's, and
    /// the patterns are joined, this one's on the left.
    pub fn join(self, other: ConstructQuery) -> (r: ConstructQuery)
        ensures
            r@ == self@.join(other@),
            r@.is_complete(),
    {
        let ghost a = self@;
        let ghost b = other@;
        proof {
            use_type_invariant(&self);
            use_type_invariant(&other);
            lemma_join_keeps_complete(a, b);
        }
        let mut template = self.template;
        let mut rest = other.template;
        template.append(&mut rest);
        assert(triples_model(template@) =~= a.template + b.template);
        ConstructQuery { template, pattern: self.pattern.join(other.pattern) }
    }

    /// Either query may match: `other`'s template follows this one's, and
    /// the patterns are united, this one's on the left.
    pub fn union(self, other: ConstructQuery) -> (r: ConstructQuery)
        ensures
            r@ == self@.union(other@),
            r@.is_complete(),
    {
        let ghost a = self@;
        let ghost b = other@;
        proof {
            use_type_invariant(&self);
            use_type_invariant(&other);
            lemma_union_keeps_complete(a, b);
        }
        let mut template = self.template;
        let mut rest = other.template;
        template.append(&mut rest);
        assert(triples_model(template@) =~= a.template + b.template);
        ConstructQuery { template, pattern: self.pattern.union(other.pattern) }
    }

    /// This query joined with the one constant triple
    /// `(subject, predicate, object)`, such as a type tag.
    pub fn join_with(self, subject: Variable, predicate: NamedNode, object: NamedNode) -> (r:
        ConstructQuery)
        ensures
            r@ == self@.join(
                ConstructModel::single(
                    TripleModel {
                        subject: TermModel::Variable(subject@),
                        predicate: PredicateModel::NamedNode(predicate@),
                        object: TermModel::NamedNode(object@),
                    },
                ),
            ),
            r@.is_complete(),
    {
        self.join(
            ConstructQuery::new(
                Subject::Variable(subject),
                Predicate::NamedNode(predicate),
                Term::NamedNode(object),
            ),
        )
    }

    /// This query with its whole pattern under the filter
    /// `variable = id`; the template stays.
    pub fn filter_variable(self, variable: Variable, id: NamedNode) -> (r: ConstructQuery)
        ensures
            r@ == self@.filter(EqualityModel { variable: variable@, id: id@ }),
            r@.is_complete(),
    {
        let condition = Equality { variable, id };
        proof {
            use_type_invariant(&self);
        }
        ConstructQuery {
            template: self.template,
            pattern: Pattern::filter(condition, self.pattern),
        }
    }
}


/// Whether `continuation` may be called on the variable that `fresh` gives
/// next, with the generator as it stands after giving it.
pub open spec fn accepts_next<F: FnOnce(Variable, &mut FreshVariables) -> ConstructQuery>(
    continuation: F,
    fresh: FreshVariables,
) -> bool {
    forall|object: Variable, rest: &mut FreshVariables|
        object@ == fresh_name(fresh.issued()) && (*rest).issued() == fresh.issued() + 1
            ==> #[trigger] continuation.requires((object, rest))
}

impl ConstructQuery {
    /// One hop from `subject` over `predicate` to a fresh variable, joined
    /// with what `continuation` says of that variable.
    pub fn new_with_binding<F>(
        subject: Variable,
        predicate: NamedNode,
        continuation: F,
        fresh: &mut FreshVariables,
    ) -> (r: ConstructQuery) where F: FnOnce(Variable, &mut FreshVariables) -> ConstructQuery
        requires
            old(fresh).has_next(),
            accepts_next(continuation, *old(fresh)),
        ensures
            exists|object: Variable, generator: &mut FreshVariables, rest: ConstructQuery|
                object@ == fresh_name(old(fresh).issued())
                    && (*generator).issued() == old(fresh).issued() + 1
                    && *final(generator) == *final(fresh)
                    && #[trigger] continuation.ensures((object, generator), rest)
                    && r@ == ConstructModel::hop(subject@, predicate@, object@, rest@),
            r@.is_complete(),
    {
        let object = fresh.next();
        let first = ConstructQuery::new(
            Subject::Variable(subject),
            Predicate::NamedNode(predicate),
            Term::Variable(object.duplicate()),
        );
        let rest = continuation(object, fresh);
        first.join(rest)
    }

    /// This query joined with one hop from `subject` over `predicate` to a
    /// fresh variable and with what `continuation` says of that variable:
    /// a field of a record.
    pub fn join_with_binding<F>(
        self,
        subject: Variable,
        predicate: NamedNode,
        continuation: F,
        fresh: &mut FreshVariables,
    ) -> (r: ConstructQuery) where F: FnOnce(Variable, &mut FreshVariables) -> ConstructQuery
        requires
            old(fresh).has_next(),
            accepts_next(continuation, *old(fresh)),
        ensures
            exists|object: Variable, generator: &mut FreshVariables, rest: ConstructQuery|
                object@ == fresh_name(old(fresh).issued())
                    && (*generator).issued() == old(fresh).issued() + 1
                    && *final(generator) == *final(fresh)
                    && #[trigger] continuation.ensures((object, generator), rest)
                    && r@ == self@.join(ConstructModel::hop(subject@, predicate@, object@, rest@)),
            r@.is_complete(),
    {
        let hop = ConstructQuery::new_with_binding(subject, predicate, continuation, fresh);
        self.join(hop)
    }

    /// This query united with one hop from `subject` over `predicate` to a
    /// fresh variable and with what `continuation` says of that variable:
    /// one alternative of a tagged choice.
    pub fn union_with_binding<F>(
        self,
        subject: Variable,
        predicate: NamedNode,
        continuation: F,
        fresh: &mut FreshVariables,
    ) -> (r: ConstructQuery) where F: FnOnce(Variable, &mut FreshVariables) -> ConstructQuery
        requires
            old(fresh).has_next(),
            accepts_next(continuation, *old(fresh)),
        ensures
            exists|object: Variable, generator: &mut FreshVariables, rest: ConstructQuery|
                object@ == fresh_name(old(fresh).issued())
                    && (*generator).issued() == old(fresh).issued() + 1
                    && *final(generator) == *final(fresh)
                    && #[trigger] continuation.ensures((object, generator), rest)
                    && r@ == self@.union(ConstructModel::hop(subject@, predicate@, object@, rest@)),
            r@.is_complete(),
    {
        let hop = ConstructQuery::new_with_binding(subject, predicate, continuation, fresh);
        self.union(hop)
    }

    /// The query for a root: what `continuation` says of a fresh top-level
    /// binding variable.
    pub fn to_query<F>(continuation: F, fresh: &mut FreshVariables) -> (r: ConstructQuery) where
        F: FnOnce(Variable, &mut FreshVariables) -> ConstructQuery,

        requires
            old(fresh).has_next(),
            accepts_next(continuation, *old(fresh)),
        ensures
            exists|binding: Variable, generator: &mut FreshVariables|
                binding@ == fresh_name(old(fresh).issued())
                    && (*generator).issued() == old(fresh).issued() + 1
                    && *final(generator) == *final(fresh)
                    && #[trigger] continuation.ensures((binding, generator), r),
            r@.is_complete(),
    {
        let binding = fresh.next();
        let r = continuation(binding, fresh);
        proof {
            use_type_invariant(&r);
        }
        r
    }
}

/// What a leaf value says of its binding: nothing. No name is taken.
pub fn leaf(binding: Variable, fresh: &mut FreshVariables) -> (r: ConstructQuery)
    ensures
        r@ == ConstructModel::empty(),
        r@.is_complete(),
        *final(fresh) == *old(fresh),
{
    ConstructQuery::empty()
}

/// A continuation that goes one hop further: given a subject, it leads
/// over `predicate` to a fresh intermediate variable and joins what
/// `continuation` says of that variable. It is `new_with_binding` with the
/// subject left open.
pub fn with_predicate<F>(predicate: NamedNode, continuation: F) -> (r: impl FnOnce(
    Variable,
    &mut FreshVariables,
) -> ConstructQuery) where F: FnOnce(Variable, &mut FreshVariables) -> ConstructQuery
    ensures
        forall|subject: Variable, fresh: &mut FreshVariables|
            (*fresh).has_next() && accepts_next(continuation, *fresh) ==> #[trigger] r.requires(
                (subject, fresh),
            ),
        forall|subject: Variable, fresh: &mut FreshVariables, query: ConstructQuery| #[trigger]
            r.ensures((subject, fresh), query) ==> exists|
                object: Variable,
                generator: &mut FreshVariables,
                rest: ConstructQuery,
            |
                object@ == fresh_name((*fresh).issued())
                    && (*generator).issued() == (*fresh).issued() + 1
                    && *final(generator) == *final(fresh)
                    && #[trigger] continuation.ensures((object, generator), rest)
                    && query@ == ConstructModel::hop(subject@, predicate@, object@, rest@)
                    && query@.is_complete(),
{
    move |subject: Variable, fresh: &mut FreshVariables| -> (query: ConstructQuery)
        requires
            old(fresh).has_next(),
            accepts_next(continuation, *old(fresh)),
        ensures
            exists|object: Variable, generator: &mut FreshVariables, rest: ConstructQuery|
                object@ == fresh_name(old(fresh).issued())
                    && (*generator).issued() == old(fresh).issued() + 1
                    && *final(generator) == *final(fresh)
                    && #[trigger] continuation.ensures((object, generator), rest)
                    && query@ == ConstructModel::hop(subject@, predicate@, object@, rest@),
            query@.is_complete(),
        { ConstructQuery::new_with_binding(subject, predicate, continuation, fresh) }
}

} // verus!
