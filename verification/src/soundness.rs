//! Why fresh variables matter: a query whose branches keep their
//! variables to themselves constructs only triples of the store.

use vstd::prelude::*;
use crate::construct_query::ConstructModel;
use crate::fresh::{fresh_name, lemma_fresh_names_distinct};
use crate::pattern::{
    pattern_variables, triple_variables, triples_variables, PatternModel, TripleModel,
};
use crate::semantics::{
    compatible, constructed, instance, lemma_instance_is_local, solutions, solves, GroundTriple,
};
use crate::shape::{type_tag, FieldModel, PathModel, ShapeModel, VariantModel};
use crate::term::{PredicateModel, TermModel};

verus! {

/// The triple pattern `t` is matched under `solution`: all its variables
/// are bound, and its instance is in the store.
pub open spec fn is_matched(
    t: TripleModel,
    store: Set<GroundTriple>,
    solution: Map<Seq<char>, TermModel>,
) -> bool {
    triple_variables(t).subset_of(solution.dom()) && store.contains(instance(t, solution))
}

/// The triple pattern `t` has a variable among `private` that `solution`
/// does not bind.
pub open spec fn is_left_out(
    t: TripleModel,
    private: Set<Seq<char>>,
    solution: Map<Seq<char>, TermModel>,
) -> bool {
    exists|name: Seq<char>| #[trigger]
        triple_variables(t).contains(name) && private.contains(name) && !solution.dom().contains(
            name,
        )
}

/// A query is guarded by the variables `private` where, under every
/// solution of its pattern, each triple of its template is either matched
/// or left out by one of those variables.
pub open spec fn is_guarded(q: ConstructModel, private: Set<Seq<char>>, store: Set<GroundTriple>)
    -> bool {
    forall|solution: Map<Seq<char>, TermModel>, i: int|
        #[trigger] solutions(q.pattern, store).contains(solution) && 0 <= i < q.template.len()
            ==> is_matched(#[trigger] q.template[i], store, solution) || is_left_out(
            q.template[i],
            private,
            solution,
        )
}

/// The triple pattern `t` has a variable among `scope`.
pub open spec fn has_variable_in(t: TripleModel, scope: Set<Seq<char>>) -> bool {
    exists|name: Seq<char>| #[trigger] triple_variables(t).contains(name) && scope.contains(name)
}

/// Every triple of the template has a variable among `scope`.
pub open spec fn is_anchored(q: ConstructModel, scope: Set<Seq<char>>) -> bool {
    forall|i: int| 0 <= i < q.template.len() ==> has_variable_in(#[trigger] q.template[i], scope)
}

/// A solution binds only variables of the pattern.
pub proof fn lemma_solution_is_within(
    p: PatternModel,
    store: Set<GroundTriple>,
    solution: Map<Seq<char>, TermModel>,
)
    requires
        solutions(p, store).contains(solution),
    ensures
        solution.dom().subset_of(pattern_variables(p)),
    decreases p,
{
    match p {
        PatternModel::Basic(triples) => {},
        PatternModel::Join(left, right) => {
            let (a, b) = choose|a: Map<Seq<char>, TermModel>, b: Map<Seq<char>, TermModel>|
                #[trigger] solutions(*left, store).contains(a) && #[trigger] solutions(
                    *right,
                    store,
                ).contains(b) && compatible(a, b) && solution == a.union_prefer_right(b);
            lemma_solution_is_within(*left, store, a);
            lemma_solution_is_within(*right, store, b);
        },
        PatternModel::Union(left, right) => {
            if solutions(*left, store).contains(solution) {
                lemma_solution_is_within(*left, store, solution);
            } else {
                lemma_solution_is_within(*right, store, solution);
            }
        },
        PatternModel::Filter(_, inner) => {
            lemma_solution_is_within(*inner, store, solution);
        },
    }
}

/// A guarded query constructs only triples of the store.
pub proof fn lemma_guarded_constructs_only_stored(
    q: ConstructModel,
    private: Set<Seq<char>>,
    store: Set<GroundTriple>,
)
    requires
        is_guarded(q, private, store),
    ensures
        constructed(q, store).subset_of(store),
{
    assert forall|g: GroundTriple| constructed(q, store).contains(g) implies store.contains(g) by {
        let (solution, i) = choose|solution: Map<Seq<char>, TermModel>, i: int|
            #[trigger] solves(q.pattern, store, solution) && 0 <= i
                < q.template.len() && triple_variables(q.template[i]).subset_of(solution.dom())
                && g == #[trigger] instance(q.template[i], solution);
        assert(solutions(q.pattern, store).contains(solution));
        assert(is_matched(q.template[i], store, solution) || is_left_out(
            q.template[i],
            private,
            solution,
        ));
    }
}

/// A query stays guarded when more variables are private.
pub proof fn lemma_guarded_by_more(
    q: ConstructModel,
    private: Set<Seq<char>>,
    more: Set<Seq<char>>,
    store: Set<GroundTriple>,
)
    requires
        is_guarded(q, private, store),
        private.subset_of(more),
    ensures
        is_guarded(q, more, store),
{
    assert forall|solution: Map<Seq<char>, TermModel>, i: int|
        #[trigger] solutions(q.pattern, store).contains(solution) && 0 <= i
            < q.template.len() implies is_matched(#[trigger] q.template[i], store, solution)
        || is_left_out(q.template[i], more, solution) by {
        if !is_matched(q.template[i], store, solution) {
            assert(is_left_out(q.template[i], private, solution));
            let name = choose|name: Seq<char>| #[trigger]
                triple_variables(q.template[i]).contains(name) && private.contains(name)
                    && !solution.dom().contains(name);
            assert(triple_variables(q.template[i]).contains(name) && more.contains(name));
        }
    }
}

/// The query of one triple pattern is guarded, whatever is private.
pub proof fn lemma_single_is_guarded(
    triple: TripleModel,
    private: Set<Seq<char>>,
    store: Set<GroundTriple>,
)
    ensures
        is_guarded(ConstructModel::single(triple), private, store),
{
    let q = ConstructModel::single(triple);
    assert forall|solution: Map<Seq<char>, TermModel>, i: int|
        #[trigger] solutions(q.pattern, store).contains(solution) && 0 <= i
            < q.template.len() implies is_matched(#[trigger] q.template[i], store, solution) by {
        assert(store.contains(instance(seq![triple][0], solution)));
        assert forall|name: Seq<char>| triple_variables(triple).contains(name) implies solution.dom(
        ).contains(name) by {
            assert(triple_variables(seq![triple][0]).contains(name));
            assert(triples_variables(seq![triple]).contains(name));
        }
    }
}

/// A join of two guarded queries is guarded by the private variables of
/// both, where neither side's pattern holds a private variable of the
/// other.
pub proof fn lemma_join_is_guarded(
    a: ConstructModel,
    b: ConstructModel,
    private_a: Set<Seq<char>>,
    private_b: Set<Seq<char>>,
    store: Set<GroundTriple>,
)
    requires
        is_guarded(a, private_a, store),
        is_guarded(b, private_b, store),
        private_a.disjoint(pattern_variables(b.pattern)),
        private_b.disjoint(pattern_variables(a.pattern)),
    ensures
        is_guarded(a.join(b), private_a + private_b, store),
{
    let q = a.join(b);
    let private = private_a + private_b;
    assert forall|solution: Map<Seq<char>, TermModel>, i: int|
        #[trigger] solutions(q.pattern, store).contains(solution) && 0 <= i
            < q.template.len() implies is_matched(#[trigger] q.template[i], store, solution)
        || is_left_out(q.template[i], private, solution) by {
        let (left, right) = choose|left: Map<Seq<char>, TermModel>, right: Map<Seq<char>, TermModel>|
            #[trigger] solutions(a.pattern, store).contains(left) && #[trigger] solutions(
                b.pattern,
                store,
            ).contains(right) && compatible(left, right) && solution == left.union_prefer_right(
                right,
            );
        assert(left.submap_of(solution)) by {
            assert forall|name: Seq<char>| left.dom().contains(name) implies solution.dom(
            ).contains(name) && left[name] == solution[name] by {
                if right.dom().contains(name) {
                    assert(left[name] == right[name]);
                }
            }
        }
        assert(right.submap_of(solution));
        lemma_solution_is_within(a.pattern, store, left);
        lemma_solution_is_within(b.pattern, store, right);
        let t = q.template[i];
        if i < a.template.len() {
            assert(t == a.template[i]);
            assert(is_matched(a.template[i], store, left) || is_left_out(
                a.template[i],
                private_a,
                left,
            ));
            if is_matched(t, store, left) {
                lemma_instance_is_local(t, left, solution);
            } else {
                let name = choose|name: Seq<char>| #[trigger]
                    triple_variables(t).contains(name) && private_a.contains(name)
                        && !left.dom().contains(name);
                assert(!pattern_variables(b.pattern).contains(name));
                assert(triple_variables(t).contains(name) && private.contains(name)
                    && !solution.dom().contains(name));
            }
        } else {
            let j = i - a.template.len();
            assert(t == b.template[j]);
            assert(is_matched(b.template[j], store, right) || is_left_out(
                b.template[j],
                private_b,
                right,
            ));
            if is_matched(t, store, right) {
                lemma_instance_is_local(t, right, solution);
            } else {
                let name = choose|name: Seq<char>| #[trigger]
                    triple_variables(t).contains(name) && private_b.contains(name)
                        && !right.dom().contains(name);
                assert(!pattern_variables(a.pattern).contains(name));
                assert(triple_variables(t).contains(name) && private.contains(name)
                    && !solution.dom().contains(name));
            }
        }
    }
}

/// A union of two guarded queries is guarded by the private variables of
/// both, where every template triple of either side has a private
/// variable of its side and neither side's pattern holds a private
/// variable of the other.
pub proof fn lemma_union_is_guarded(
    a: ConstructModel,
    b: ConstructModel,
    private_a: Set<Seq<char>>,
    private_b: Set<Seq<char>>,
    store: Set<GroundTriple>,
)
    requires
        is_guarded(a, private_a, store),
        is_guarded(b, private_b, store),
        is_anchored(a, private_a),
        is_anchored(b, private_b),
        private_a.disjoint(pattern_variables(b.pattern)),
        private_b.disjoint(pattern_variables(a.pattern)),
    ensures
        is_guarded(a.union(b), private_a + private_b, store),
        is_anchored(a.union(b), private_a + private_b),
{
    let q = a.union(b);
    let private = private_a + private_b;
    assert forall|i: int| 0 <= i < q.template.len() implies has_variable_in(
        #[trigger] q.template[i],
        private,
    ) by {
        if i < a.template.len() {
            assert(q.template[i] == a.template[i]);
            assert(has_variable_in(a.template[i], private_a));
            let name = choose|name: Seq<char>| #[trigger]
                triple_variables(a.template[i]).contains(name) && private_a.contains(name);
            assert(triple_variables(q.template[i]).contains(name) && private.contains(name));
        } else {
            let j = i - a.template.len();
            assert(q.template[i] == b.template[j]);
            assert(has_variable_in(b.template[j], private_b));
            let name = choose|name: Seq<char>| #[trigger]
                triple_variables(b.template[j]).contains(name) && private_b.contains(name);
            assert(triple_variables(q.template[i]).contains(name) && private.contains(name));
        }
    }
    assert forall|solution: Map<Seq<char>, TermModel>, i: int|
        #[trigger] solutions(q.pattern, store).contains(solution) && 0 <= i
            < q.template.len() implies is_matched(#[trigger] q.template[i], store, solution)
        || is_left_out(q.template[i], private, solution) by {
        let t = q.template[i];
        let on_left = solutions(a.pattern, store).contains(solution);
        if on_left {
            lemma_solution_is_within(a.pattern, store, solution);
        } else {
            lemma_solution_is_within(b.pattern, store, solution);
        }
        if i < a.template.len() {
            assert(t == a.template[i]);
            if on_left {
                assert(is_matched(a.template[i], store, solution) || is_left_out(
                    a.template[i],
                    private_a,
                    solution,
                ));
                if !is_matched(t, store, solution) {
                    let name = choose|name: Seq<char>| #[trigger]
                        triple_variables(t).contains(name) && private_a.contains(name)
                            && !solution.dom().contains(name);
                    assert(triple_variables(t).contains(name) && private.contains(name)
                        && !solution.dom().contains(name));
                }
            } else {
                assert(has_variable_in(a.template[i], private_a));
                let name = choose|name: Seq<char>| #[trigger]
                    triple_variables(a.template[i]).contains(name) && private_a.contains(name);
                assert(!pattern_variables(b.pattern).contains(name));
                assert(triple_variables(t).contains(name) && private.contains(name)
                    && !solution.dom().contains(name));
            }
        } else {
            let j = i - a.template.len();
            assert(t == b.template[j]);
            if !on_left {
                assert(is_matched(b.template[j], store, solution) || is_left_out(
                    b.template[j],
                    private_b,
                    solution,
                ));
                if !is_matched(t, store, solution) {
                    let name = choose|name: Seq<char>| #[trigger]
                        triple_variables(t).contains(name) && private_b.contains(name)
                            && !solution.dom().contains(name);
                    assert(triple_variables(t).contains(name) && private.contains(name)
                        && !solution.dom().contains(name));
                }
            } else {
                assert(has_variable_in(b.template[j], private_b));
                let name = choose|name: Seq<char>| #[trigger]
                    triple_variables(b.template[j]).contains(name) && private_b.contains(name);
                assert(!pattern_variables(a.pattern).contains(name));
                assert(triple_variables(t).contains(name) && private.contains(name)
                    && !solution.dom().contains(name));
            }
        }
    }
}

/// The names that a generator gives from count `lo` up to, not including,
/// count `hi`.
pub open spec fn fresh_range(lo: nat, hi: nat) -> Set<Seq<char>> {
    Set::new(|name: Seq<char>| exists|k: nat| lo <= k < hi && name == #[trigger] fresh_name(k))
}

/// The name `binding` is none that a generator gives from count `issued`
/// on.
pub open spec fn is_foreign(binding: Seq<char>, issued: nat) -> bool {
    forall|k: nat| k >= issued ==> binding != #[trigger] fresh_name(k)
}

/// A query rooted at `binding` that took the names from `lo` to `hi`:
/// its pattern holds no other variable, its template is guarded by those
/// names, and every triple of its template has a variable among them or
/// the binding.
pub open spec fn is_sound_at(
    q: ConstructModel,
    binding: Seq<char>,
    lo: nat,
    hi: nat,
    store: Set<GroundTriple>,
) -> bool {
    pattern_variables(q.pattern).subset_of(fresh_range(lo, hi).insert(binding)) && is_guarded(
        q,
        fresh_range(lo, hi),
        store,
    ) && is_anchored(q, fresh_range(lo, hi).insert(binding))
}

/// A name is in a range exactly where its count is.
pub proof fn lemma_fresh_range_holds(k: nat, lo: nat, hi: nat)
    ensures
        fresh_range(lo, hi).contains(fresh_name(k)) <==> lo <= k < hi,
{
    if fresh_range(lo, hi).contains(fresh_name(k)) {
        let j = choose|j: nat| lo <= j < hi && fresh_name(k) == #[trigger] fresh_name(j);
        if j != k {
            lemma_fresh_names_distinct(j, k);
        }
    }
}

/// Two ranges that follow each other make up one range and share no
/// name, and a foreign name is in neither.
pub proof fn lemma_fresh_ranges(binding: Seq<char>, lo: nat, mid: nat, hi: nat)
    requires
        lo <= mid <= hi,
    ensures
        fresh_range(lo, hi) == fresh_range(lo, mid) + fresh_range(mid, hi),
        fresh_range(lo, mid).disjoint(fresh_range(mid, hi)),
        is_foreign(binding, lo) ==> !fresh_range(lo, hi).contains(binding),
{
    assert forall|name: Seq<char>| fresh_range(lo, hi).contains(name) <==> (fresh_range(lo, mid)
        + fresh_range(mid, hi)).contains(name) by {
        if fresh_range(lo, hi).contains(name) {
            let k = choose|k: nat| lo <= k < hi && name == #[trigger] fresh_name(k);
            lemma_fresh_range_holds(k, lo, mid);
            lemma_fresh_range_holds(k, mid, hi);
        }
        if fresh_range(lo, mid).contains(name) {
            let k = choose|k: nat| lo <= k < mid && name == #[trigger] fresh_name(k);
            lemma_fresh_range_holds(k, lo, hi);
        }
        if fresh_range(mid, hi).contains(name) {
            let k = choose|k: nat| mid <= k < hi && name == #[trigger] fresh_name(k);
            lemma_fresh_range_holds(k, lo, hi);
        }
    }
    assert(fresh_range(lo, hi) =~= fresh_range(lo, mid) + fresh_range(mid, hi));
    assert forall|name: Seq<char>|
        !(fresh_range(lo, mid).contains(name) && fresh_range(mid, hi).contains(name)) by {
        if fresh_range(lo, mid).contains(name) {
            let k = choose|k: nat| lo <= k < mid && name == #[trigger] fresh_name(k);
            lemma_fresh_range_holds(k, mid, hi);
        }
    }
    if is_foreign(binding, lo) && fresh_range(lo, hi).contains(binding) {
        let k = choose|k: nat| lo <= k < hi && binding == #[trigger] fresh_name(k);
        assert(binding != fresh_name(k));
    }
}

/// A name that a generator gave is foreign to all it gives later.
pub proof fn lemma_given_name_is_foreign(at: nat, later: nat)
    requires
        at < later,
    ensures
        is_foreign(fresh_name(at), later),
{
    assert forall|k: nat| k >= later implies fresh_name(at) != #[trigger] fresh_name(k) by {
        lemma_fresh_names_distinct(at, k);
    }
}

/// The empty query is sound at any binding, with no name taken.
pub proof fn lemma_empty_is_sound(binding: Seq<char>, lo: nat, store: Set<GroundTriple>)
    ensures
        is_sound_at(ConstructModel::empty(), binding, lo, lo, store),
        is_anchored(ConstructModel::empty(), fresh_range(lo, lo)),
{
    assert(pattern_variables(ConstructModel::empty().pattern) =~= Set::empty());
}

/// Two queries at one binding, the second taking its names after the
/// first, are sound when joined.
pub proof fn lemma_join_is_sound(
    a: ConstructModel,
    b: ConstructModel,
    binding: Seq<char>,
    lo: nat,
    mid: nat,
    hi: nat,
    store: Set<GroundTriple>,
)
    requires
        lo <= mid <= hi,
        is_foreign(binding, lo),
        is_sound_at(a, binding, lo, mid, store),
        is_sound_at(b, binding, mid, hi, store),
    ensures
        is_sound_at(a.join(b), binding, lo, hi, store),
{
    lemma_fresh_ranges(binding, lo, mid, hi);
    lemma_fresh_ranges(binding, lo, lo, mid);
    lemma_fresh_ranges(binding, mid, mid, hi);
    let left = fresh_range(lo, mid);
    let right = fresh_range(mid, hi);
    assert(left.disjoint(pattern_variables(b.pattern)));
    assert(right.disjoint(pattern_variables(a.pattern)));
    lemma_join_is_guarded(a, b, left, right, store);
    let q = a.join(b);
    let scope = fresh_range(lo, hi).insert(binding);
    assert forall|i: int| 0 <= i < q.template.len() implies has_variable_in(
        #[trigger] q.template[i],
        scope,
    ) by {
        if i < a.template.len() {
            assert(q.template[i] == a.template[i]);
            assert(has_variable_in(a.template[i], left.insert(binding)));
            let name = choose|name: Seq<char>| #[trigger]
                triple_variables(a.template[i]).contains(name) && left.insert(binding).contains(
                    name,
                );
            assert(triple_variables(q.template[i]).contains(name) && scope.contains(name));
        } else {
            let j = i - a.template.len();
            assert(q.template[i] == b.template[j]);
            assert(has_variable_in(b.template[j], right.insert(binding)));
            let name = choose|name: Seq<char>| #[trigger]
                triple_variables(b.template[j]).contains(name) && right.insert(binding).contains(
                    name,
                );
            assert(triple_variables(q.template[i]).contains(name) && scope.contains(name));
        }
    }
}

/// A query at one binding stays sound when a constant triple on that
/// binding is joined to it.
pub proof fn lemma_tag_is_sound(
    q: ConstructModel,
    binding: Seq<char>,
    type_iri: Seq<char>,
    lo: nat,
    hi: nat,
    store: Set<GroundTriple>,
)
    requires
        lo <= hi,
        is_foreign(binding, lo),
        is_sound_at(q, binding, lo, hi, store),
    ensures
        is_sound_at(q.join(type_tag(binding, type_iri)), binding, lo, hi, store),
{
    let tag = type_tag(binding, type_iri);
    let triple = tag.template[0];
    lemma_single_is_guarded(triple, fresh_range(hi, hi), store);
    assert(triple_variables(triple).contains(binding));
    assert(has_variable_in(triple, fresh_range(hi, hi).insert(binding)));
    assert forall|name: Seq<char>| pattern_variables(tag.pattern).contains(name) implies name
        == binding by {
        let i = choose|i: int|
            0 <= i < seq![triple].len() && #[trigger] triple_variables(seq![triple][i]).contains(
                name,
            );
    }
    lemma_join_is_sound(q, tag, binding, lo, hi, hi, store);
}

/// One hop to the name given at count `at`, over a query that is sound at
/// that name with the names after it, is sound at the hop's subject, and
/// every triple of its template has one of the names from `at` on.
pub proof fn lemma_hop_is_sound(
    binding: Seq<char>,
    predicate: Seq<char>,
    rest: ConstructModel,
    at: nat,
    hi: nat,
    store: Set<GroundTriple>,
)
    requires
        at < hi,
        is_foreign(binding, at),
        is_sound_at(rest, fresh_name(at), at + 1, hi, store),
    ensures
        is_sound_at(
            ConstructModel::hop(binding, predicate, fresh_name(at), rest),
            binding,
            at,
            hi,
            store,
        ),
        is_anchored(
            ConstructModel::hop(binding, predicate, fresh_name(at), rest),
            fresh_range(at, hi),
        ),
{
    let object = fresh_name(at);
    let triple = TripleModel {
        subject: TermModel::Variable(binding),
        predicate: PredicateModel::NamedNode(predicate),
        object: TermModel::Variable(object),
    };
    let first = ConstructModel::single(triple);
    let q = first.join(rest);
    let inner = fresh_range(at + 1, hi);
    let outer = fresh_range(at, hi);
    lemma_fresh_ranges(binding, at, at + 1, hi);
    lemma_fresh_range_holds(at, at, hi);
    lemma_fresh_range_holds(at, at + 1, hi);
    assert forall|name: Seq<char>| pattern_variables(first.pattern).contains(name) implies name
        == binding || name == object by {
        let i = choose|i: int|
            0 <= i < seq![triple].len() && #[trigger] triple_variables(seq![triple][i]).contains(
                name,
            );
    }
    lemma_single_is_guarded(triple, Set::empty(), store);
    assert(Set::<Seq<char>>::empty().disjoint(pattern_variables(rest.pattern)));
    assert(inner.disjoint(pattern_variables(first.pattern)));
    lemma_join_is_guarded(first, rest, Set::empty(), inner, store);
    lemma_guarded_by_more(q, Set::<Seq<char>>::empty() + inner, outer, store);
    assert(triple_variables(triple).contains(object));
    assert forall|i: int| 0 <= i < q.template.len() implies has_variable_in(
        #[trigger] q.template[i],
        outer,
    ) by {
        if i == 0 {
            assert(q.template[i] == triple);
            assert(triple_variables(q.template[i]).contains(object) && outer.contains(object));
        } else {
            let j = i - 1;
            assert(q.template[i] == rest.template[j]);
            assert(has_variable_in(rest.template[j], inner.insert(object)));
            let name = choose|name: Seq<char>| #[trigger]
                triple_variables(rest.template[j]).contains(name) && inner.insert(object).contains(
                    name,
                );
            assert(triple_variables(q.template[i]).contains(name) && outer.contains(name));
        }
    }
    assert forall|i: int| 0 <= i < q.template.len() implies has_variable_in(
        #[trigger] q.template[i],
        outer.insert(binding),
    ) by {
        assert(has_variable_in(q.template[i], outer));
        let name = choose|name: Seq<char>| #[trigger]
            triple_variables(q.template[i]).contains(name) && outer.contains(name);
        assert(triple_variables(q.template[i]).contains(name) && outer.insert(binding).contains(
            name,
        ));
    }
}

/// Two alternatives at one binding, the second taking its names after the
/// first, each with one of its own names in every triple of its template,
/// are sound when united.
pub proof fn lemma_union_is_sound(
    a: ConstructModel,
    b: ConstructModel,
    binding: Seq<char>,
    lo: nat,
    mid: nat,
    hi: nat,
    store: Set<GroundTriple>,
)
    requires
        lo <= mid <= hi,
        is_foreign(binding, lo),
        is_sound_at(a, binding, lo, mid, store),
        is_sound_at(b, binding, mid, hi, store),
        is_anchored(a, fresh_range(lo, mid)),
        is_anchored(b, fresh_range(mid, hi)),
    ensures
        is_sound_at(a.union(b), binding, lo, hi, store),
        is_anchored(a.union(b), fresh_range(lo, hi)),
{
    lemma_fresh_ranges(binding, lo, mid, hi);
    lemma_fresh_ranges(binding, lo, lo, mid);
    lemma_fresh_ranges(binding, mid, mid, hi);
    let left = fresh_range(lo, mid);
    let right = fresh_range(mid, hi);
    assert(left.disjoint(pattern_variables(b.pattern)));
    assert(right.disjoint(pattern_variables(a.pattern)));
    lemma_union_is_guarded(a, b, left, right, store);
    let q = a.union(b);
    let outer = fresh_range(lo, hi);
    assert forall|i: int| 0 <= i < q.template.len() implies has_variable_in(
        #[trigger] q.template[i],
        outer.insert(binding),
    ) by {
        assert(has_variable_in(q.template[i], outer));
        let name = choose|name: Seq<char>| #[trigger]
            triple_variables(q.template[i]).contains(name) && outer.contains(name);
        assert(triple_variables(q.template[i]).contains(name) && outer.insert(binding).contains(
            name,
        ));
    }
}

/// The description of a shape at a binding that is foreign to the names
/// it takes is sound at that binding.
pub proof fn lemma_description_is_sound(
    shape: ShapeModel,
    binding: Seq<char>,
    issued: nat,
    store: Set<GroundTriple>,
)
    requires
        is_foreign(binding, issued),
    ensures
        is_sound_at(
            shape.describe(binding, issued),
            binding,
            issued,
            issued + shape.names_needed(),
            store,
        ),
    decreases shape,
{
    match shape {
        ShapeModel::Leaf => {
            lemma_empty_is_sound(binding, issued, store);
        },
        ShapeModel::Record { fields, type_iri } => {
            lemma_fields_are_sound(fields, fields.len(), binding, issued, store);
            let body = ShapeModel::describe_fields(fields, fields.len(), binding, issued);
            match type_iri {
                Some(iri) => {
                    lemma_tag_is_sound(
                        body,
                        binding,
                        iri,
                        issued,
                        issued + shape.names_needed(),
                        store,
                    );
                },
                None => {},
            }
        },
        ShapeModel::Choice { variants } => {
            lemma_variants_are_sound(variants, variants.len(), binding, issued, store);
        },
    }
}

/// The description of the first `n` fields is sound at the binding.
pub proof fn lemma_fields_are_sound(
    fields: Seq<FieldModel>,
    n: nat,
    binding: Seq<char>,
    issued: nat,
    store: Set<GroundTriple>,
)
    requires
        n <= fields.len(),
        is_foreign(binding, issued),
    ensures
        is_sound_at(
            ShapeModel::describe_fields(fields, n, binding, issued),
            binding,
            issued,
            issued + ShapeModel::fields_need(fields, n),
            store,
        ),
    decreases fields, n,
{
    if n == 0 {
        lemma_empty_is_sound(binding, issued, store);
    } else {
        let field = fields[n - 1];
        let before = ShapeModel::describe_fields(fields, (n - 1) as nat, binding, issued);
        let at = issued + ShapeModel::fields_need(fields, (n - 1) as nat);
        lemma_fields_are_sound(fields, (n - 1) as nat, binding, issued, store);
        if !field.ignored {
            let needed = field.shape.names_needed();
            let flat = if field.flattened {
                before.join(field.shape.describe(binding, at))
            } else {
                before
            };
            let next = if field.flattened {
                at + needed
            } else {
                at
            };
            if field.flattened {
                lemma_description_is_sound(field.shape, binding, at, store);
                lemma_join_is_sound(
                    before,
                    field.shape.describe(binding, at),
                    binding,
                    issued,
                    at,
                    next,
                    store,
                );
            }
            match field.predicate {
                Some(predicate) => {
                    let rest = field.shape.describe(fresh_name(next), next + 1);
                    lemma_given_name_is_foreign(next, next + 1);
                    lemma_description_is_sound(field.shape, fresh_name(next), next + 1, store);
                    lemma_hop_is_sound(binding, predicate, rest, next, next + 1 + needed, store);
                    lemma_join_is_sound(
                        flat,
                        ConstructModel::hop(binding, predicate, fresh_name(next), rest),
                        binding,
                        issued,
                        next,
                        next + 1 + needed,
                        store,
                    );
                },
                None => {},
            }
        }
    }
}

/// The description of the first `n` alternatives is sound at the
/// binding, and every triple of its template has one of the names taken.
pub proof fn lemma_variants_are_sound(
    variants: Seq<VariantModel>,
    n: nat,
    binding: Seq<char>,
    issued: nat,
    store: Set<GroundTriple>,
)
    requires
        n <= variants.len(),
        is_foreign(binding, issued),
    ensures
        is_sound_at(
            ShapeModel::describe_variants(variants, n, binding, issued),
            binding,
            issued,
            issued + ShapeModel::variants_need(variants, n),
            store,
        ),
        is_anchored(
            ShapeModel::describe_variants(variants, n, binding, issued),
            fresh_range(issued, issued + ShapeModel::variants_need(variants, n)),
        ),
    decreases variants, n,
{
    if n == 0 {
        lemma_empty_is_sound(binding, issued, store);
    } else {
        let variant = variants[n - 1];
        let before = ShapeModel::describe_variants(variants, (n - 1) as nat, binding, issued);
        let at = issued + ShapeModel::variants_need(variants, (n - 1) as nat);
        let needed = variant.shape.names_needed();
        lemma_variants_are_sound(variants, (n - 1) as nat, binding, issued, store);
        match variant.path {
            PathModel::Predicate(predicate) => {
                let rest = variant.shape.describe(fresh_name(at), at + 1);
                lemma_given_name_is_foreign(at, at + 1);
                lemma_description_is_sound(variant.shape, fresh_name(at), at + 1, store);
                lemma_hop_is_sound(binding, predicate, rest, at, at + 1 + needed, store);
                lemma_union_is_sound(
                    before,
                    ConstructModel::hop(binding, predicate, fresh_name(at), rest),
                    binding,
                    issued,
                    at,
                    at + 1 + needed,
                    store,
                );
            },
            PathModel::ChainedPath { first, second } => {
                let rest = variant.shape.describe(fresh_name(at + 1), at + 2);
                lemma_given_name_is_foreign(at + 1, at + 2);
                lemma_given_name_is_foreign(at, at + 1);
                lemma_description_is_sound(variant.shape, fresh_name(at + 1), at + 2, store);
                lemma_hop_is_sound(fresh_name(at), second, rest, at + 1, at + 2 + needed, store);
                let inner = ConstructModel::hop(fresh_name(at), second, fresh_name(at + 1), rest);
                lemma_hop_is_sound(binding, first, inner, at, at + 2 + needed, store);
                lemma_union_is_sound(
                    before,
                    ConstructModel::hop(binding, first, fresh_name(at), inner),
                    binding,
                    issued,
                    at,
                    at + 2 + needed,
                    store,
                );
            },
        }
    }
}

/// Whatever the shape, with records, choices and chained paths at any
/// depth: the query that describes it at a binding foreign to the names
/// it takes constructs only triples of the store.
pub proof fn lemma_shape_constructs_only_stored(
    shape: ShapeModel,
    binding: Seq<char>,
    issued: nat,
    store: Set<GroundTriple>,
)
    requires
        is_foreign(binding, issued),
    ensures
        constructed(shape.describe(binding, issued), store).subset_of(store),
{
    lemma_description_is_sound(shape, binding, issued, store);
    lemma_guarded_constructs_only_stored(
        shape.describe(binding, issued),
        fresh_range(issued, issued + shape.names_needed()),
        store,
    );
}

/// The root query of a shape, at the name that the generator gives first,
/// constructs only triples of the store.
pub proof fn lemma_root_constructs_only_stored(
    shape: ShapeModel,
    issued: nat,
    store: Set<GroundTriple>,
)
    ensures
        constructed(shape.describe(fresh_name(issued), issued + 1), store).subset_of(store),
{
    lemma_given_name_is_foreign(issued, issued + 1);
    lemma_shape_constructs_only_stored(shape, fresh_name(issued), issued + 1, store);
}

} // verus!
