//! The capability that every mapped type supplies: given a binding
//! variable, the query that describes one value of the type at that
//! variable.

use vstd::prelude::*;
use crate::compile::{construct_of, triples_algebra};
use crate::construct_query::{ConstructModel, ConstructQuery};
use crate::fresh::{fresh_name, FreshVariables};
use crate::term::Variable;

verus! {

/// A type whose values are described by a CONSTRUCT query. What an
/// implementation returns is its own affair: the functions here hand it
/// the binding and the generator, and pass on what it gave.
pub trait ToConstructQuery {
    /// The query that describes a value of the type bound to `binding`.
    fn to_query_with_binding(binding: Variable, fresh: &mut FreshVariables) -> (r: ConstructQuery);
}

/// The query for a root of the type `T`: what `T` says of a fresh
/// top-level binding variable.
pub fn to_query<T: ToConstructQuery>(fresh: &mut FreshVariables) -> (r: ConstructQuery)
    requires
        old(fresh).has_next(),
    ensures
        exists|binding: Variable, generator: &mut FreshVariables|
            binding@ == fresh_name(old(fresh).issued())
                && (*generator).issued() == old(fresh).issued() + 1
                && *final(generator) == *final(fresh)
                && #[trigger] call_ensures(T::to_query_with_binding, (binding, generator), r),
        r@.is_complete(),
{
    let binding = fresh.next();
    let r = T::to_query_with_binding(binding, fresh);
    r.template_is_bound();
    r
}

/// The executable query for a root of the type `T`, built with a generator
/// of its own: the template that `T` gives for the first fresh name, over
/// the pattern as the optimizer rewrote it.
pub fn sparql_algebra<T: ToConstructQuery>() -> (r: spargebra::Query)
    ensures
        exists|
            binding: Variable,
            generator: &mut FreshVariables,
            query: ConstructQuery,
            pattern: spargebra::algebra::GraphPattern,
        |
            binding@ == fresh_name(0) && (*generator).issued() == 1
                && #[trigger] call_ensures(T::to_query_with_binding, (binding, generator), query)
                && r == #[trigger] construct_of(triples_algebra(query@.template), pattern),
{
    let mut fresh = FreshVariables::new();
    let query = to_query::<T>(&mut fresh);
    query.into_query()
}

impl ToConstructQuery for Variable {
    /// A leaf adds no triple and takes no name.
    fn to_query_with_binding(binding: Variable, fresh: &mut FreshVariables) -> (r: ConstructQuery)
        ensures
            r@ == ConstructModel::empty(),
            *final(fresh) == *old(fresh),
    {
        ConstructQuery::empty()
    }
}

impl ToConstructQuery for u8 {
    /// A leaf adds no triple and takes no name.
    fn to_query_with_binding(binding: Variable, fresh: &mut FreshVariables) -> (r: ConstructQuery)
        ensures
            r@ == ConstructModel::empty(),
            *final(fresh) == *old(fresh),
    {
        ConstructQuery::empty()
    }
}

impl ToConstructQuery for u16 {
    /// A leaf adds no triple and takes no name.
    fn to_query_with_binding(binding: Variable, fresh: &mut FreshVariables) -> (r: ConstructQuery)
        ensures
            r@ == ConstructModel::empty(),
            *final(fresh) == *old(fresh),
    {
        ConstructQuery::empty()
    }
}

impl ToConstructQuery for u32 {
    /// A leaf adds no triple and takes no name.
    fn to_query_with_binding(binding: Variable, fresh: &mut FreshVariables) -> (r: ConstructQuery)
        ensures
            r@ == ConstructModel::empty(),
            *final(fresh) == *old(fresh),
    {
        ConstructQuery::empty()
    }
}

impl ToConstructQuery for u64 {
    /// A leaf adds no triple and takes no name.
    fn to_query_with_binding(binding: Variable, fresh: &mut FreshVariables) -> (r: ConstructQuery)
        ensures
            r@ == ConstructModel::empty(),
            *final(fresh) == *old(fresh),
    {
        ConstructQuery::empty()
    }
}

impl ToConstructQuery for i8 {
    /// A leaf adds no triple and takes no name.
    fn to_query_with_binding(binding: Variable, fresh: &mut FreshVariables) -> (r: ConstructQuery)
        ensures
            r@ == ConstructModel::empty(),
            *final(fresh) == *old(fresh),
    {
        ConstructQuery::empty()
    }
}

impl ToConstructQuery for i16 {
    /// A leaf adds no triple and takes no name.
    fn to_query_with_binding(binding: Variable, fresh: &mut FreshVariables) -> (r: ConstructQuery)
        ensures
            r@ == ConstructModel::empty(),
            *final(fresh) == *old(fresh),
    {
        ConstructQuery::empty()
    }
}

impl ToConstructQuery for i32 {
    /// A leaf adds no triple and takes no name.
    fn to_query_with_binding(binding: Variable, fresh: &mut FreshVariables) -> (r: ConstructQuery)
        ensures
            r@ == ConstructModel::empty(),
            *final(fresh) == *old(fresh),
    {
        ConstructQuery::empty()
    }
}

impl ToConstructQuery for i64 {
    /// A leaf adds no triple and takes no name.
    fn to_query_with_binding(binding: Variable, fresh: &mut FreshVariables) -> (r: ConstructQuery)
        ensures
            r@ == ConstructModel::empty(),
            *final(fresh) == *old(fresh),
    {
        ConstructQuery::empty()
    }
}

impl ToConstructQuery for String {
    /// A leaf adds no triple and takes no name.
    fn to_query_with_binding(binding: Variable, fresh: &mut FreshVariables) -> (r: ConstructQuery)
        ensures
            r@ == ConstructModel::empty(),
            *final(fresh) == *old(fresh),
    {
        ConstructQuery::empty()
    }
}

#[verifier::external_type_specification]
#[verifier::external_body]
pub struct ExDateTime(xsd_types::DateTime);

impl ToConstructQuery for xsd_types::DateTime {
    /// A leaf adds no triple and takes no name.
    fn to_query_with_binding(binding: Variable, fresh: &mut FreshVariables) -> (r: ConstructQuery)
        ensures
            r@ == ConstructModel::empty(),
            *final(fresh) == *old(fresh),
    {
        ConstructQuery::empty()
    }
}

} // verus!
