//! Composition of SPARQL CONSTRUCT queries that describe one resource.
//!
//! A [`ConstructQuery`] pairs a construct template with a WHERE graph
//! pattern. Queries are built by joining and uniting triple patterns,
//! with intermediate positions named by a [`FreshVariables`] generator,
//! and are finally handed to the optimizer and assembled into an
//! executable query.

pub mod term;
pub mod fresh;
pub mod pattern;
pub mod construct_query;
pub mod compile;
pub mod to_construct_query;
pub mod semantics;
pub mod soundness;
pub mod shape;

pub use crate::construct_query::{leaf, with_predicate, ConstructQuery};
pub use crate::fresh::FreshVariables;
pub use crate::pattern::{Equality, Pattern, Triple};
pub use crate::shape::{Field, PredicatePath, Shape, Variant};
pub use crate::to_construct_query::{sparql_algebra, to_query, ToConstructQuery};
pub use crate::term::{NamedNode, Predicate, Subject, Term, Variable};
