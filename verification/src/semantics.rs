//! What a graph pattern means: which solutions it has over a store of
//! triples, and which triples a query constructs from them.
//!
//! Nothing here runs. The definitions say what the composition operators
//! are meant to compose, and the lemmas hold the operators to it.

use vstd::prelude::*;
use crate::construct_query::ConstructModel;
use crate::pattern::{
    pattern_variables, triple_variables, triples_variables, EqualityModel, PatternModel,
    TripleModel,
};
use crate::term::{PredicateModel, TermModel};

verus! {

/// A triple of the store.
pub struct GroundTriple {
    pub subject: TermModel,
    pub predicate: TermModel,
    pub object: TermModel,
}

/// The term that stands in place of `t` under `solution`: the value of a
/// variable, and any other term itself. A blank node stands for itself
/// here; the composition operators put none into a pattern.
pub open spec fn term_value(t: TermModel, solution: Map<Seq<char>, TermModel>) -> TermModel {
    match t {
        TermModel::Variable(name) => solution[name],
        _ => t,
    }
}

/// The term that stands in place of the predicate `p` under `solution`.
pub open spec fn predicate_value(p: PredicateModel, solution: Map<Seq<char>, TermModel>)
    -> TermModel {
    match p {
        PredicateModel::Variable(name) => solution[name],
        PredicateModel::NamedNode(iri) => TermModel::NamedNode(iri),
    }
}

/// The triple that the pattern `t` becomes under `solution`.
pub open spec fn instance(t: TripleModel, solution: Map<Seq<char>, TermModel>) -> GroundTriple {
    GroundTriple {
        subject: term_value(t.subject, solution),
        predicate: predicate_value(t.predicate, solution),
        object: term_value(t.object, solution),
    }
}

/// Two solutions are compatible where they agree on every variable that
/// both bind.
pub open spec fn compatible(a: Map<Seq<char>, TermModel>, b: Map<Seq<char>, TermModel>) -> bool {
    forall|name: Seq<char>|
        a.dom().contains(name) && b.dom().contains(name) ==> #[trigger] a[name] == b[name]
}

/// The solutions of a basic pattern: the bindings of exactly its
/// variables under which each of its triples is in the store.
pub open spec fn basic_solutions(triples: Seq<TripleModel>, store: Set<GroundTriple>) -> Set<
    Map<Seq<char>, TermModel>,
> {
    Set::new(
        |solution: Map<Seq<char>, TermModel>|
            solution.dom() == triples_variables(triples) && forall|i: int|
                0 <= i < triples.len() ==> store.contains(
                    #[trigger] instance(triples[i], solution),
                ),
    )
}

/// The join of two sets of solutions: the unions of two compatible
/// solutions, one of each set.
pub open spec fn joined_solutions(
    left: Set<Map<Seq<char>, TermModel>>,
    right: Set<Map<Seq<char>, TermModel>>,
) -> Set<Map<Seq<char>, TermModel>> {
    Set::new(
        |solution: Map<Seq<char>, TermModel>|
            exists|a: Map<Seq<char>, TermModel>, b: Map<Seq<char>, TermModel>|
                #[trigger] left.contains(a) && #[trigger] right.contains(b) && compatible(a, b)
                    && solution == a.union_prefer_right(b),
    )
}

/// Whether a solution passes the filter: it binds the variable to the
/// identifier.
pub open spec fn passes(condition: EqualityModel, solution: Map<Seq<char>, TermModel>) -> bool {
    solution.dom().contains(condition.variable) && solution[condition.variable]
        == TermModel::NamedNode(condition.id)
}

/// The solutions of a graph pattern over `store`: of a join, the join of
/// the two sides' solutions; of a union, the solutions of either side; of
/// a filter, the solutions of what it wraps that pass it.
pub open spec fn solutions(p: PatternModel, store: Set<GroundTriple>) -> Set<
    Map<Seq<char>, TermModel>,
>
    decreases p,
{
    match p {
        PatternModel::Basic(triples) => basic_solutions(triples, store),
        PatternModel::Join(left, right) => joined_solutions(
            solutions(*left, store),
            solutions(*right, store),
        ),
        PatternModel::Union(left, right) => solutions(*left, store) + solutions(*right, store),
        PatternModel::Filter(condition, inner) => solutions(*inner, store).filter(
            |solution: Map<Seq<char>, TermModel>| passes(condition, solution),
        ),
    }
}

/// Whether `solution` is a solution of the pattern `p` over `store`.
pub open spec fn solves(
    p: PatternModel,
    store: Set<GroundTriple>,
    solution: Map<Seq<char>, TermModel>,
) -> bool {
    solutions(p, store).contains(solution)
}

/// The triples that a query constructs over `store`: each triple of the
/// template under each solution of the pattern that binds all of the
/// triple's variables.
pub open spec fn constructed(q: ConstructModel, store: Set<GroundTriple>) -> Set<GroundTriple> {
    Set::new(
        |g: GroundTriple|
            exists|solution: Map<Seq<char>, TermModel>, i: int|
                #[trigger] solves(q.pattern, store, solution) && 0 <= i < q.template.len()
                    && triple_variables(q.template[i]).subset_of(solution.dom()) && g
                    == #[trigger] instance(q.template[i], solution),
    )
}

/// The triple patterns that occur in a graph pattern.
pub open spec fn pattern_triples(p: PatternModel) -> Set<TripleModel>
    decreases p,
{
    match p {
        PatternModel::Basic(triples) => Set::new(|t: TripleModel| triples.contains(t)),
        PatternModel::Join(left, right) => pattern_triples(*left) + pattern_triples(*right),
        PatternModel::Union(left, right) => pattern_triples(*left) + pattern_triples(*right),
        PatternModel::Filter(_, inner) => pattern_triples(*inner),
    }
}

/// A pattern without alternatives: basic patterns under joins and filters.
pub open spec fn is_conjunctive(p: PatternModel) -> bool
    decreases p,
{
    match p {
        PatternModel::Basic(_) => true,
        PatternModel::Join(left, right) => is_conjunctive(*left) && is_conjunctive(*right),
        PatternModel::Union(_, _) => false,
        PatternModel::Filter(_, inner) => is_conjunctive(*inner),
    }
}

/// A query is grounded where every triple of its template is a triple
/// pattern of its graph pattern.
pub open spec fn is_grounded(q: ConstructModel) -> bool {
    forall|i: int|
        0 <= i < q.template.len() ==> pattern_triples(q.pattern).contains(#[trigger] q.template[i])
}

/// Filter semantics: the solutions of a filtered query are exactly those
/// solutions of the query in which the variable is bound to the
/// identifier.
pub proof fn lemma_filter_restricts(
    q: ConstructModel,
    condition: EqualityModel,
    store: Set<GroundTriple>,
    solution: Map<Seq<char>, TermModel>,
)
    ensures
        solves(q.filter(condition).pattern, store, solution) <==> (solves(
            q.pattern,
            store,
            solution,
        ) && passes(condition, solution)),
{
}

/// A filtered query constructs nothing that the query without the filter
/// does not construct.
pub proof fn lemma_filter_constructs_less(
    q: ConstructModel,
    condition: EqualityModel,
    store: Set<GroundTriple>,
)
    ensures
        constructed(q.filter(condition), store).subset_of(constructed(q, store)),
{
    assert forall|g: GroundTriple| constructed(q.filter(condition), store).contains(g) implies
        constructed(q, store).contains(g) by {
        let (solution, i) = choose|solution: Map<Seq<char>, TermModel>, i: int|
            #[trigger] solves(q.filter(condition).pattern, store, solution) && 0 <= i
                < q.template.len() && triple_variables(q.template[i]).subset_of(solution.dom())
                && g == #[trigger] instance(q.template[i], solution);
        assert(solves(q.pattern, store, solution));
        assert(g == instance(q.template[i], solution));
    }
}

/// The solutions of a union are those of its left side and those of its
/// right side.
pub proof fn lemma_union_is_either(
    a: ConstructModel,
    b: ConstructModel,
    store: Set<GroundTriple>,
    solution: Map<Seq<char>, TermModel>,
)
    ensures
        solves(a.union(b).pattern, store, solution) <==> (solves(a.pattern, store, solution)
            || solves(b.pattern, store, solution)),
{
}

/// A solution of a join solves both sides, each on the variables that the
/// side binds: it extends a solution of the left side and a solution of
/// the right side.
pub proof fn lemma_join_is_both(
    a: ConstructModel,
    b: ConstructModel,
    store: Set<GroundTriple>,
    solution: Map<Seq<char>, TermModel>,
)
    requires
        solves(a.join(b).pattern, store, solution),
    ensures
        exists|left: Map<Seq<char>, TermModel>, right: Map<Seq<char>, TermModel>|
            #[trigger] solves(a.pattern, store, left) && #[trigger] solves(b.pattern, store, right)
                && left.submap_of(solution) && right.submap_of(solution),
{
    let (left, right) = choose|left: Map<Seq<char>, TermModel>, right: Map<Seq<char>, TermModel>|
        #[trigger] solutions(a.pattern, store).contains(left) && #[trigger] solutions(
            b.pattern,
            store,
        ).contains(right) && compatible(left, right) && solution == left.union_prefer_right(
            right,
        );
    assert(left.submap_of(solution)) by {
        assert forall|name: Seq<char>| left.dom().contains(name) implies solution.dom().contains(
            name,
        ) && left[name] == solution[name] by {
            if right.dom().contains(name) {
                assert(left[name] == right[name]);
            }
        }
    }
    assert(right.submap_of(solution));
    assert(solves(a.pattern, store, left) && solves(b.pattern, store, right));
}

/// A triple pattern has the same instance under two solutions that agree
/// on its variables.
pub proof fn lemma_instance_is_local(
    t: TripleModel,
    small: Map<Seq<char>, TermModel>,
    large: Map<Seq<char>, TermModel>,
)
    requires
        triple_variables(t).subset_of(small.dom()),
        small.submap_of(large),
    ensures
        triple_variables(t).subset_of(large.dom()),
        instance(t, small) == instance(t, large),
{
    assert forall|name: Seq<char>| triple_variables(t).contains(name) implies small.dom().contains(
        name,
    ) && large.dom().contains(name) && small[name] == large[name] by {
        assert(small.dom().contains(name));
    }
    match t.subject {
        TermModel::Variable(name) => {
            assert(triple_variables(t).contains(name));
        },
        _ => {},
    }
    match t.predicate {
        PredicateModel::Variable(name) => {
            assert(triple_variables(t).contains(name));
        },
        _ => {},
    }
    match t.object {
        TermModel::Variable(name) => {
            assert(triple_variables(t).contains(name));
        },
        _ => {},
    }
}

/// Under a solution of a pattern without alternatives, every triple
/// pattern of the pattern has all its variables bound and its instance in
/// the store.
pub proof fn lemma_solution_covers(
    p: PatternModel,
    store: Set<GroundTriple>,
    solution: Map<Seq<char>, TermModel>,
    t: TripleModel,
)
    requires
        is_conjunctive(p),
        solves(p, store, solution),
        pattern_triples(p).contains(t),
    ensures
        triple_variables(t).subset_of(solution.dom()),
        store.contains(instance(t, solution)),
    decreases p,
{
    match p {
        PatternModel::Basic(triples) => {
            let i = choose|i: int| 0 <= i < triples.len() && triples[i] == t;
            assert(store.contains(instance(triples[i], solution)));
            assert forall|name: Seq<char>| triple_variables(t).contains(name) implies solution.dom(
            ).contains(name) by {
                assert(triple_variables(triples[i]).contains(name));
                assert(triples_variables(triples).contains(name));
            }
        },
        PatternModel::Join(left, right) => {
            let (a, b) = choose|a: Map<Seq<char>, TermModel>, b: Map<Seq<char>, TermModel>|
                #[trigger] solutions(*left, store).contains(a) && #[trigger] solutions(
                    *right,
                    store,
                ).contains(b) && compatible(a, b) && solution == a.union_prefer_right(b);
            assert(a.submap_of(solution)) by {
                assert forall|name: Seq<char>| a.dom().contains(name) implies solution.dom(
                ).contains(name) && a[name] == solution[name] by {
                    if b.dom().contains(name) {
                        assert(a[name] == b[name]);
                    }
                }
            }
            assert(b.submap_of(solution));
            if pattern_triples(*left).contains(t) {
                lemma_solution_covers(*left, store, a, t);
                lemma_instance_is_local(t, a, solution);
            } else {
                lemma_solution_covers(*right, store, b, t);
                lemma_instance_is_local(t, b, solution);
            }
        },
        PatternModel::Union(_, _) => {},
        PatternModel::Filter(_, inner) => {
            lemma_solution_covers(*inner, store, solution, t);
        },
    }
}

/// A grounded query over a pattern without alternatives constructs only
/// triples of the store.
pub proof fn lemma_constructs_only_stored(q: ConstructModel, store: Set<GroundTriple>)
    requires
        is_grounded(q),
        is_conjunctive(q.pattern),
    ensures
        constructed(q, store).subset_of(store),
{
    assert forall|g: GroundTriple| constructed(q, store).contains(g) implies store.contains(g) by {
        let (solution, i) = choose|solution: Map<Seq<char>, TermModel>, i: int|
            #[trigger] solves(q.pattern, store, solution) && 0 <= i < q.template.len()
                && triple_variables(q.template[i]).subset_of(solution.dom()) && g
                == #[trigger] instance(q.template[i], solution);
        assert(pattern_triples(q.pattern).contains(q.template[i]));
        lemma_solution_covers(q.pattern, store, solution, q.template[i]);
    }
}

/// The query of one triple pattern is grounded.
pub proof fn lemma_single_is_grounded(triple: TripleModel)
    ensures
        is_grounded(ConstructModel::single(triple)),
{
    assert(seq![triple][0] == triple);
    assert(seq![triple].contains(triple));
}

/// Joining and uniting keep queries grounded.
pub proof fn lemma_composition_keeps_grounded(a: ConstructModel, b: ConstructModel)
    requires
        is_grounded(a),
        is_grounded(b),
    ensures
        is_grounded(a.join(b)),
        is_grounded(a.union(b)),
{
    let joined = a.join(b);
    assert forall|i: int| 0 <= i < joined.template.len() implies pattern_triples(
        joined.pattern,
    ).contains(#[trigger] joined.template[i]) by {
        if i < a.template.len() {
            assert(joined.template[i] == a.template[i]);
        } else {
            assert(joined.template[i] == b.template[i - a.template.len()]);
        }
    }
    let united = a.union(b);
    assert forall|i: int| 0 <= i < united.template.len() implies pattern_triples(
        united.pattern,
    ).contains(#[trigger] united.template[i]) by {
        if i < a.template.len() {
            assert(united.template[i] == a.template[i]);
        } else {
            assert(united.template[i] == b.template[i - a.template.len()]);
        }
    }
}

/// A join has no alternatives where neither side has one, and the query
/// of one triple pattern has none.
pub proof fn lemma_join_is_conjunctive(a: ConstructModel, b: ConstructModel, triple: TripleModel)
    ensures
        is_conjunctive(a.join(b).pattern) <==> is_conjunctive(a.pattern) && is_conjunctive(
            b.pattern,
        ),
        is_conjunctive(ConstructModel::single(triple).pattern),
{
}

/// Filtering keeps a query grounded.
pub proof fn lemma_filter_keeps_grounded(a: ConstructModel, condition: EqualityModel)
    requires
        is_grounded(a),
    ensures
        is_grounded(a.filter(condition)),
{
}

/// The part of the valuation `values` that the pattern `p` binds: for a
/// basic pattern its variables, for a join both sides' parts, for a union
/// the part of the left side where that side fits and of the right side
/// otherwise.
pub open spec fn bound_part(
    p: PatternModel,
    store: Set<GroundTriple>,
    values: Map<Seq<char>, TermModel>,
) -> Map<Seq<char>, TermModel>
    decreases p, 0nat,
{
    match p {
        PatternModel::Basic(triples) => values.restrict(triples_variables(triples)),
        PatternModel::Join(left, right) => bound_part(*left, store, values).union_prefer_right(
            bound_part(*right, store, values),
        ),
        PatternModel::Union(left, right) => if fits(*left, store, values) {
            bound_part(*left, store, values)
        } else {
            bound_part(*right, store, values)
        },
        PatternModel::Filter(_, inner) => bound_part(*inner, store, values),
    }
}

/// Whether the store holds what the pattern asks for under the valuation
/// `values`: every triple of a basic pattern, both sides of a join, either
/// side of a union, and under a filter what it wraps, bound so that the
/// filter passes.
pub open spec fn fits(p: PatternModel, store: Set<GroundTriple>, values: Map<Seq<char>, TermModel>)
    -> bool
    decreases p, 1nat,
{
    match p {
        PatternModel::Basic(triples) => triples_variables(triples).subset_of(values.dom())
            && forall|i: int|
            0 <= i < triples.len() ==> store.contains(#[trigger] instance(triples[i], values)),
        PatternModel::Join(left, right) => fits(*left, store, values) && fits(
            *right,
            store,
            values,
        ),
        PatternModel::Union(left, right) => fits(*left, store, values) || fits(
            *right,
            store,
            values,
        ),
        PatternModel::Filter(condition, inner) => fits(*inner, store, values) && passes(
            condition,
            bound_part(*inner, store, values),
        ),
    }
}

/// Where a valuation fits a pattern, the part of it that the pattern binds
/// is a solution of the pattern.
pub proof fn lemma_fitting_part_solves(
    p: PatternModel,
    store: Set<GroundTriple>,
    values: Map<Seq<char>, TermModel>,
)
    requires
        fits(p, store, values),
    ensures
        solves(p, store, bound_part(p, store, values)),
        bound_part(p, store, values).submap_of(values),
    decreases p,
{
    let part = bound_part(p, store, values);
    match p {
        PatternModel::Basic(triples) => {
            assert(part.dom() =~= triples_variables(triples));
            assert forall|i: int| 0 <= i < triples.len() implies store.contains(
                #[trigger] instance(triples[i], part),
            ) by {
                assert forall|name: Seq<char>|
                    triple_variables(triples[i]).contains(name) implies part.dom().contains(
                    name,
                ) by {
                    assert(triples_variables(triples).contains(name));
                }
                lemma_instance_is_local(triples[i], part, values);
                assert(store.contains(instance(triples[i], values)));
            }
        },
        PatternModel::Join(left, right) => {
            lemma_fitting_part_solves(*left, store, values);
            lemma_fitting_part_solves(*right, store, values);
            let a = bound_part(*left, store, values);
            let b = bound_part(*right, store, values);
            assert(compatible(a, b));
            assert(solutions(*left, store).contains(a) && solutions(*right, store).contains(b));
        },
        PatternModel::Union(left, right) => {
            if fits(*left, store, values) {
                lemma_fitting_part_solves(*left, store, values);
            } else {
                lemma_fitting_part_solves(*right, store, values);
            }
        },
        PatternModel::Filter(condition, inner) => {
            lemma_fitting_part_solves(*inner, store, values);
        },
    }
}

/// Nothing is lost: where a valuation fits the pattern of a query, the
/// query constructs, with the valuation's values, every triple of its
/// template whose variables the pattern binds.
pub proof fn lemma_fitting_is_constructed(
    q: ConstructModel,
    store: Set<GroundTriple>,
    values: Map<Seq<char>, TermModel>,
    i: int,
)
    requires
        fits(q.pattern, store, values),
        0 <= i < q.template.len(),
        triple_variables(q.template[i]).subset_of(bound_part(q.pattern, store, values).dom()),
    ensures
        constructed(q, store).contains(instance(q.template[i], values)),
{
    let part = bound_part(q.pattern, store, values);
    lemma_fitting_part_solves(q.pattern, store, values);
    lemma_instance_is_local(q.template[i], part, values);
    assert(solves(q.pattern, store, part) && instance(q.template[i], values) == instance(
        q.template[i],
        part,
    ));
}

/// Where a valuation fits a pattern without alternatives, the pattern
/// binds all of its variables.
pub proof fn lemma_conjunctive_part_is_whole(
    p: PatternModel,
    store: Set<GroundTriple>,
    values: Map<Seq<char>, TermModel>,
)
    requires
        is_conjunctive(p),
        fits(p, store, values),
    ensures
        bound_part(p, store, values).dom() == pattern_variables(p),
    decreases p,
{
    match p {
        PatternModel::Basic(triples) => {
            assert(bound_part(p, store, values).dom() =~= triples_variables(triples));
        },
        PatternModel::Join(left, right) => {
            lemma_conjunctive_part_is_whole(*left, store, values);
            lemma_conjunctive_part_is_whole(*right, store, values);
            assert(bound_part(p, store, values).dom() =~= pattern_variables(*left)
                + pattern_variables(*right));
        },
        PatternModel::Union(_, _) => {},
        PatternModel::Filter(_, inner) => {
            lemma_conjunctive_part_is_whole(*inner, store, values);
        },
    }
}

/// Nothing is lost of a record: where a valuation fits the pattern of a
/// complete query without alternatives, the query constructs every triple
/// of its template with the valuation's values.
pub proof fn lemma_fitting_record_is_constructed(
    q: ConstructModel,
    store: Set<GroundTriple>,
    values: Map<Seq<char>, TermModel>,
)
    requires
        q.is_complete(),
        is_conjunctive(q.pattern),
        fits(q.pattern, store, values),
    ensures
        forall|i: int|
            0 <= i < q.template.len() ==> constructed(q, store).contains(
                #[trigger] instance(q.template[i], values),
            ),
{
    lemma_conjunctive_part_is_whole(q.pattern, store, values);
    assert forall|i: int| 0 <= i < q.template.len() implies constructed(q, store).contains(
        #[trigger] instance(q.template[i], values),
    ) by {
        assert forall|name: Seq<char>|
            triple_variables(q.template[i]).contains(name) implies pattern_variables(
            q.pattern,
        ).contains(name) by {
            assert(triples_variables(q.template).contains(name));
        }
        lemma_fitting_is_constructed(q, store, values, i);
    }
}

} // verus!
