//! Shapes as data: which fields a record has and which alternatives a
//! choice has, each with its predicate, and the query that describes a
//! value of such a shape.

use vstd::prelude::*;
use vstd::string::*;
use crate::construct_query::{ConstructModel, ConstructQuery};
use crate::fresh::{fresh_name, FreshVariables};
use crate::pattern::{EqualityModel, TripleModel};
use crate::term::{NamedNode, Predicate, PredicateModel, Subject, Term, TermModel, Variable};

verus! {

/// How an alternative of a choice is reached from the binding: over one
/// predicate, or over two with an intermediate node between them.
#[derive(Debug, PartialEq, Eq)]
pub enum PredicatePath {
    Predicate(NamedNode),
    ChainedPath { first: NamedNode, second: NamedNode },
}

/// A field of a record. An ignored field adds nothing. A flattened field
/// is described at the record's own binding. A field with a predicate is
/// described at a fresh variable, one hop over the predicate away.
#[derive(Debug, PartialEq, Eq)]
pub struct Field {
    pub ignored: bool,
    pub flattened: bool,
    pub predicate: Option<NamedNode>,
    pub shape: Shape,
}

/// An alternative of a choice.
#[derive(Debug, PartialEq, Eq)]
pub struct Variant {
    pub path: PredicatePath,
    pub shape: Shape,
}

/// The shape of a described type.
#[derive(Debug, PartialEq, Eq)]
pub enum Shape {
    /// A value that is itself a literal and adds no graph structure.
    Leaf,
    /// A record: its fields in order, and the type tag if it has one.
    Record { fields: Vec<Field>, type_iri: Option<NamedNode> },
    /// A tagged choice: its alternatives in order.
    Choice { variants: Vec<Variant> },
}

/// What a predicate path is, as a mathematical value.
pub enum PathModel {
    Predicate(Seq<char>),
    ChainedPath { first: Seq<char>, second: Seq<char> },
}

/// What a field is, as a mathematical value.
pub struct FieldModel {
    pub ignored: bool,
    pub flattened: bool,
    pub predicate: Option<Seq<char>>,
    pub shape: ShapeModel,
}

/// What an alternative is, as a mathematical value.
pub struct VariantModel {
    pub path: PathModel,
    pub shape: ShapeModel,
}

/// What a shape is, as a mathematical value.
pub enum ShapeModel {
    Leaf,
    Record { fields: Seq<FieldModel>, type_iri: Option<Seq<char>> },
    Choice { variants: Seq<VariantModel> },
}

impl View for PredicatePath {
    type V = PathModel;

    open spec fn view(&self) -> PathModel {
        match self {
            PredicatePath::Predicate(predicate) => PathModel::Predicate(predicate@),
            PredicatePath::ChainedPath { first, second } => PathModel::ChainedPath {
                first: first@,
                second: second@,
            },
        }
    }
}

/// The lexical form of a named node that may be absent.
pub open spec fn optional_iri(node: Option<NamedNode>) -> Option<Seq<char>> {
    match node {
        Some(iri) => Some(iri@),
        None => None,
    }
}

impl Shape {
    /// The shape as a mathematical value.
    pub open spec fn model(&self) -> ShapeModel
        decreases self,
    {
        match self {
            Shape::Leaf => ShapeModel::Leaf,
            Shape::Record { fields, type_iri } => ShapeModel::Record {
                fields: Shape::fields_model(fields@, fields@.len()),
                type_iri: optional_iri(*type_iri),
            },
            Shape::Choice { variants } => ShapeModel::Choice {
                variants: Shape::variants_model(variants@, variants@.len()),
            },
        }
    }

    /// The first `n` fields as mathematical values, in order.
    pub open spec fn fields_model(fields: Seq<Field>, n: nat) -> Seq<FieldModel>
        decreases fields, n,
    {
        if n == 0 || n > fields.len() {
            Seq::empty()
        } else {
            Shape::fields_model(fields, (n - 1) as nat).push(
                FieldModel {
                    ignored: fields[n - 1].ignored,
                    flattened: fields[n - 1].flattened,
                    predicate: optional_iri(fields[n - 1].predicate),
                    shape: fields[n - 1].shape.model(),
                },
            )
        }
    }

    /// The first `n` alternatives as mathematical values, in order.
    pub open spec fn variants_model(variants: Seq<Variant>, n: nat) -> Seq<VariantModel>
        decreases variants, n,
    {
        if n == 0 || n > variants.len() {
            Seq::empty()
        } else {
            Shape::variants_model(variants, (n - 1) as nat).push(
                VariantModel { path: variants[n - 1].path@, shape: variants[n - 1].shape.model() },
            )
        }
    }
}

impl View for Shape {
    type V = ShapeModel;

    open spec fn view(&self) -> ShapeModel {
        self.model()
    }
}

impl View for Field {
    type V = FieldModel;

    open spec fn view(&self) -> FieldModel {
        FieldModel {
            ignored: self.ignored,
            flattened: self.flattened,
            predicate: optional_iri(self.predicate),
            shape: self.shape@,
        }
    }
}

impl View for Variant {
    type V = VariantModel;

    open spec fn view(&self) -> VariantModel {
        VariantModel { path: self.path@, shape: self.shape@ }
    }
}

/// The model of the first `n` fields has `n` items, each the view of the
/// field in its place.
pub proof fn lemma_fields_model(fields: Seq<Field>, n: nat)
    requires
        n <= fields.len(),
    ensures
        Shape::fields_model(fields, n).len() == n,
        forall|j: int| 0 <= j < n ==> #[trigger] Shape::fields_model(fields, n)[j] == fields[j]@,
    decreases n,
{
    if n > 0 {
        lemma_fields_model(fields, (n - 1) as nat);
    }
}

/// The model of the first `n` alternatives has `n` items, each the view of
/// the alternative in its place.
pub proof fn lemma_variants_model(variants: Seq<Variant>, n: nat)
    requires
        n <= variants.len(),
    ensures
        Shape::variants_model(variants, n).len() == n,
        forall|j: int|
            0 <= j < n ==> #[trigger] Shape::variants_model(variants, n)[j] == variants[j]@,
    decreases n,
{
    if n > 0 {
        lemma_variants_model(variants, (n - 1) as nat);
    }
}

/// The IRI of `rdf:type`.
pub open spec fn rdf_type() -> Seq<char> {
    "http://www.w3.org/1999/02/22-rdf-syntax-ns#type"@
}

/// The query of the one constant triple that tags `binding` with a type.
pub open spec fn type_tag(binding: Seq<char>, type_iri: Seq<char>) -> ConstructModel {
    ConstructModel::single(
        TripleModel {
            subject: TermModel::Variable(binding),
            predicate: PredicateModel::NamedNode(rdf_type()),
            object: TermModel::NamedNode(type_iri),
        },
    )
}

impl ShapeModel {
    /// How many fresh names the description of the shape takes.
    pub open spec fn names_needed(self) -> nat
        decreases self,
    {
        match self {
            ShapeModel::Leaf => 0,
            ShapeModel::Record { fields, type_iri } => ShapeModel::fields_need(fields, fields.len()),
            ShapeModel::Choice { variants } => ShapeModel::variants_need(variants, variants.len()),
        }
    }

    /// How many fresh names the first `n` fields take.
    pub open spec fn fields_need(fields: Seq<FieldModel>, n: nat) -> nat
        decreases fields, n,
    {
        if n == 0 || n > fields.len() {
            0
        } else {
            let field = fields[n - 1];
            let before = ShapeModel::fields_need(fields, (n - 1) as nat);
            if field.ignored {
                before
            } else {
                let flat = if field.flattened {
                    field.shape.names_needed()
                } else {
                    0
                };
                let hop = if field.predicate.is_some() {
                    1 + field.shape.names_needed()
                } else {
                    0
                };
                before + flat + hop
            }
        }
    }

    /// How many fresh names the first `n` alternatives take.
    pub open spec fn variants_need(variants: Seq<VariantModel>, n: nat) -> nat
        decreases variants, n,
    {
        if n == 0 || n > variants.len() {
            0
        } else {
            let variant = variants[n - 1];
            let before = ShapeModel::variants_need(variants, (n - 1) as nat);
            match variant.path {
                PathModel::Predicate(_) => before + 1 + variant.shape.names_needed(),
                PathModel::ChainedPath { .. } => before + 2 + variant.shape.names_needed(),
            }
        }
    }

    /// The query that describes a value of the shape bound to `binding`,
    /// made with a generator that had given out `issued` names before.
    pub open spec fn describe(self, binding: Seq<char>, issued: nat) -> ConstructModel
        decreases self,
    {
        match self {
            ShapeModel::Leaf => ConstructModel::empty(),
            ShapeModel::Record { fields, type_iri } => {
                let body = ShapeModel::describe_fields(fields, fields.len(), binding, issued);
                match type_iri {
                    Some(iri) => body.join(type_tag(binding, iri)),
                    None => body,
                }
            },
            ShapeModel::Choice { variants } => ShapeModel::describe_variants(
                variants,
                variants.len(),
                binding,
                issued,
            ),
        }
    }

    /// The empty query joined with the first `n` fields, one after the
    /// other: a flattened field as its own description at `binding`, a
    /// field with a predicate as a hop to a fresh variable.
    pub open spec fn describe_fields(
        fields: Seq<FieldModel>,
        n: nat,
        binding: Seq<char>,
        issued: nat,
    ) -> ConstructModel
        decreases fields, n,
    {
        if n == 0 || n > fields.len() {
            ConstructModel::empty()
        } else {
            let field = fields[n - 1];
            let before = ShapeModel::describe_fields(fields, (n - 1) as nat, binding, issued);
            let at = issued + ShapeModel::fields_need(fields, (n - 1) as nat);
            if field.ignored {
                before
            } else {
                let flat = if field.flattened {
                    before.join(field.shape.describe(binding, at))
                } else {
                    before
                };
                let next = if field.flattened {
                    at + field.shape.names_needed()
                } else {
                    at
                };
                match field.predicate {
                    Some(predicate) => flat.join(
                        ConstructModel::hop(
                            binding,
                            predicate,
                            fresh_name(next),
                            field.shape.describe(fresh_name(next), next + 1),
                        ),
                    ),
                    None => flat,
                }
            }
        }
    }

    /// The empty query united with the first `n` alternatives, one after
    /// the other: each a hop to a fresh variable, or two hops where the
    /// path is chained.
    pub open spec fn describe_variants(
        variants: Seq<VariantModel>,
        n: nat,
        binding: Seq<char>,
        issued: nat,
    ) -> ConstructModel
        decreases variants, n,
    {
        if n == 0 || n > variants.len() {
            ConstructModel::empty()
        } else {
            let variant = variants[n - 1];
            let before = ShapeModel::describe_variants(variants, (n - 1) as nat, binding, issued);
            let at = issued + ShapeModel::variants_need(variants, (n - 1) as nat);
            match variant.path {
                PathModel::Predicate(predicate) => before.union(
                    ConstructModel::hop(
                        binding,
                        predicate,
                        fresh_name(at),
                        variant.shape.describe(fresh_name(at), at + 1),
                    ),
                ),
                PathModel::ChainedPath { first, second } => before.union(
                    ConstructModel::hop(
                        binding,
                        first,
                        fresh_name(at),
                        ConstructModel::hop(
                            fresh_name(at),
                            second,
                            fresh_name(at + 1),
                            variant.shape.describe(fresh_name(at + 1), at + 2),
                        ),
                    ),
                ),
            }
        }
    }
}

/// The first `n` fields take no more names than all of them.
pub proof fn lemma_fields_need_grows(fields: Seq<FieldModel>, n: nat, m: nat)
    requires
        n <= m <= fields.len(),
    ensures
        ShapeModel::fields_need(fields, n) <= ShapeModel::fields_need(fields, m),
    decreases m,
{
    if n < m {
        lemma_fields_need_grows(fields, n, (m - 1) as nat);
    }
}

/// The first `n` alternatives take no more names than all of them.
pub proof fn lemma_variants_need_grows(variants: Seq<VariantModel>, n: nat, m: nat)
    requires
        n <= m <= variants.len(),
    ensures
        ShapeModel::variants_need(variants, n) <= ShapeModel::variants_need(variants, m),
    decreases m,
{
    if n < m {
        lemma_variants_need_grows(variants, n, (m - 1) as nat);
    }
}

/// One hop from `subject` over `predicate` to `object`, joined with
/// `rest`.
fn hop(subject: Variable, predicate: &NamedNode, object: &Variable, rest: ConstructQuery) -> (r:
    ConstructQuery)
    ensures
        r@ == ConstructModel::hop(subject@, predicate@, object@, rest@),
        r@.is_complete(),
{
    let first = ConstructQuery::new(
        Subject::Variable(subject),
        Predicate::NamedNode(predicate.duplicate()),
        Term::Variable(object.duplicate()),
    );
    first.join(rest)
}

impl Shape {
    /// The query that describes a value of the shape bound to `binding`.
    /// It is complete, and it takes exactly the names the shape needs.
    pub fn to_query_with_binding(&self, binding: Variable, fresh: &mut FreshVariables) -> (r:
        ConstructQuery)
        requires
            old(fresh).issued() + self@.names_needed() <= u64::MAX,
        ensures
            r@ == self@.describe(binding@, old(fresh).issued()),
            r@.is_complete(),
            final(fresh).issued() == old(fresh).issued() + self@.names_needed(),
        decreases self,
    {
        let ghost start = fresh.issued();
        match self {
            Shape::Leaf => ConstructQuery::empty(),
            Shape::Record { fields, type_iri } => {
                let ghost all = Shape::fields_model(fields@, fields@.len());
                proof {
                    lemma_fields_model(fields@, fields@.len());
                }
                let mut acc = ConstructQuery::empty();
                let mut i: usize = 0;
                while i < fields.len()
                    invariant
                        i <= fields.len(),
                        all.len() == fields.len(),
                        self@ == (ShapeModel::Record {
                            fields: all,
                            type_iri: optional_iri(*type_iri),
                        }),
                        forall|j: int| 0 <= j < all.len() ==> #[trigger] all[j] == fields@[j]@,
                        *self == (Shape::Record { fields: *fields, type_iri: *type_iri }),
                        start + ShapeModel::fields_need(all, all.len()) <= u64::MAX,
                        fresh.issued() == start + ShapeModel::fields_need(all, i as nat),
                        acc@ == ShapeModel::describe_fields(all, i as nat, binding@, start),
                        acc@.is_complete(),
                    decreases fields.len() - i,
                {
                    proof {
                        lemma_fields_need_grows(all, (i + 1) as nat, all.len());
                    }
                    let field = &fields[i];
                    assert(all[i as int] == field@);
                    assert(decreases_to!(self => self->fields));
                    assert(decreases_to!(*fields => fields@[i as int]));
                    if !field.ignored {
                        if field.flattened {
                            let flat = field.shape.to_query_with_binding(
                                binding.duplicate(),
                                fresh,
                            );
                            acc = acc.join(flat);
                        }
                        if let Some(predicate) = &field.predicate {
                            let object = fresh.next();
                            let rest = field.shape.to_query_with_binding(
                                object.duplicate(),
                                fresh,
                            );
                            acc = acc.join(hop(binding.duplicate(), predicate, &object, rest));
                        }
                    }
                    i += 1;
                }
                match type_iri {
                    Some(iri) => acc.join_with(
                        binding,
                        NamedNode::new(
                            String::from_str("http://www.w3.org/1999/02/22-rdf-syntax-ns#type"),
                        ),
                        iri.duplicate(),
                    ),
                    None => acc,
                }
            },
            Shape::Choice { variants } => {
                let ghost all = Shape::variants_model(variants@, variants@.len());
                proof {
                    lemma_variants_model(variants@, variants@.len());
                }
                let mut acc = ConstructQuery::empty();
                let mut i: usize = 0;
                while i < variants.len()
                    invariant
                        i <= variants.len(),
                        all.len() == variants.len(),
                        self@ == (ShapeModel::Choice { variants: all }),
                        forall|j: int| 0 <= j < all.len() ==> #[trigger] all[j] == variants@[j]@,
                        *self == (Shape::Choice { variants: *variants }),
                        start + ShapeModel::variants_need(all, all.len()) <= u64::MAX,
                        fresh.issued() == start + ShapeModel::variants_need(all, i as nat),
                        acc@ == ShapeModel::describe_variants(all, i as nat, binding@, start),
                        acc@.is_complete(),
                    decreases variants.len() - i,
                {
                    proof {
                        lemma_variants_need_grows(all, (i + 1) as nat, all.len());
                    }
                    let variant = &variants[i];
                    assert(all[i as int] == variant@);
                    assert(decreases_to!(self => self->variants));
                    assert(decreases_to!(*variants => variants@[i as int]));
                    match &variant.path {
                        PredicatePath::Predicate(predicate) => {
                            let object = fresh.next();
                            let rest = variant.shape.to_query_with_binding(
                                object.duplicate(),
                                fresh,
                            );
                            acc = acc.union(hop(binding.duplicate(), predicate, &object, rest));
                        },
                        PredicatePath::ChainedPath { first, second } => {
                            let between = fresh.next();
                            let object = fresh.next();
                            let rest = variant.shape.to_query_with_binding(
                                object.duplicate(),
                                fresh,
                            );
                            let inner = hop(between.duplicate(), second, &object, rest);
                            acc = acc.union(hop(binding.duplicate(), first, &between, inner));
                        },
                    }
                    i += 1;
                }
                acc
            },
        }
    }
}

impl Shape {
    /// How many fresh names the description of the shape takes, or `None`
    /// where that number does not fit in 64 bits.
    pub fn count_names(&self) -> (r: Option<u64>)
        ensures
            r.is_some() <==> self@.names_needed() <= u64::MAX,
            r.is_some() ==> r.unwrap() == self@.names_needed(),
        decreases self,
    {
        match self {
            Shape::Leaf => Some(0),
            Shape::Record { fields, type_iri } => {
                let ghost all = Shape::fields_model(fields@, fields@.len());
                proof {
                    lemma_fields_model(fields@, fields@.len());
                }
                let mut total: u64 = 0;
                let mut i: usize = 0;
                while i < fields.len()
                    invariant
                        i <= fields.len(),
                        all.len() == fields.len(),
                        self@ == (ShapeModel::Record {
                            fields: all,
                            type_iri: optional_iri(*type_iri),
                        }),
                        forall|j: int| 0 <= j < all.len() ==> #[trigger] all[j] == fields@[j]@,
                        *self == (Shape::Record { fields: *fields, type_iri: *type_iri }),
                        total == ShapeModel::fields_need(all, i as nat),
                    decreases fields.len() - i,
                {
                    proof {
                        lemma_fields_need_grows(all, (i + 1) as nat, all.len());
                    }
                    let field = &fields[i];
                    assert(all[i as int] == field@);
                    assert(decreases_to!(self => self->fields));
                    assert(decreases_to!(*fields => fields@[i as int]));
                    if !field.ignored && (field.flattened || field.predicate.is_some()) {
                        let inner: u64 = match field.shape.count_names() {
                            Some(n) => n,
                            None => {
                                return None;
                            },
                        };
                        if field.flattened {
                            if inner > u64::MAX - total {
                                return None;
                            }
                            total = total + inner;
                        }
                        if field.predicate.is_some() {
                            if inner == u64::MAX || inner + 1 > u64::MAX - total {
                                return None;
                            }
                            total = total + inner + 1;
                        }
                    }
                    i += 1;
                }
                Some(total)
            },
            Shape::Choice { variants } => {
                let ghost all = Shape::variants_model(variants@, variants@.len());
                proof {
                    lemma_variants_model(variants@, variants@.len());
                }
                let mut total: u64 = 0;
                let mut i: usize = 0;
                while i < variants.len()
                    invariant
                        i <= variants.len(),
                        all.len() == variants.len(),
                        self@ == (ShapeModel::Choice { variants: all }),
                        forall|j: int| 0 <= j < all.len() ==> #[trigger] all[j] == variants@[j]@,
                        *self == (Shape::Choice { variants: *variants }),
                        total == ShapeModel::variants_need(all, i as nat),
                    decreases variants.len() - i,
                {
                    proof {
                        lemma_variants_need_grows(all, (i + 1) as nat, all.len());
                    }
                    let variant = &variants[i];
                    assert(all[i as int] == variant@);
                    assert(decreases_to!(self => self->variants));
                    assert(decreases_to!(*variants => variants@[i as int]));
                    let inner: u64 = match variant.shape.count_names() {
                        Some(n) => n,
                        None => {
                            return None;
                        },
                    };
                    let hops: u64 = match &variant.path {
                        PredicatePath::Predicate(_) => 1,
                        PredicatePath::ChainedPath { .. } => 2,
                    };
                    if inner > u64::MAX - hops || inner + hops > u64::MAX - total {
                        return None;
                    }
                    total = total + inner + hops;
                    i += 1;
                }
                Some(total)
            },
        }
    }

    /// The query that describes a value of the shape bound to `binding`,
    /// or `None`, with the generator untouched, where the generator has
    /// too few names left.
    pub fn try_to_query_with_binding(&self, binding: Variable, fresh: &mut FreshVariables) -> (r:
        Option<ConstructQuery>)
        ensures
            r.is_some() <==> old(fresh).issued() + self@.names_needed() <= u64::MAX,
            r.is_some() ==> r.unwrap()@ == self@.describe(binding@, old(fresh).issued())
                && r.unwrap()@.is_complete() && final(fresh).issued() == old(fresh).issued()
                + self@.names_needed(),
            r.is_none() ==> *final(fresh) == *old(fresh),
    {
        match self.count_names() {
            Some(needed) => {
                if needed <= fresh.remaining() {
                    Some(self.to_query_with_binding(binding, fresh))
                } else {
                    None
                }
            },
            None => None,
        }
    }

    /// The query for a root of the shape: its description at a fresh
    /// top-level binding variable.
    pub fn to_query(&self, fresh: &mut FreshVariables) -> (r: ConstructQuery)
        requires
            old(fresh).issued() + 1 + self@.names_needed() <= u64::MAX,
        ensures
            r@ == self@.describe(fresh_name(old(fresh).issued()), old(fresh).issued() + 1),
            r@.is_complete(),
            final(fresh).issued() == old(fresh).issued() + 1 + self@.names_needed(),
    {
        let binding = fresh.next();
        self.to_query_with_binding(binding, fresh)
    }

    /// The query for the root of the shape that has the identifier `id`:
    /// the root query with its whole pattern under the filter that binds
    /// the root variable to `id`.
    pub fn to_query_for(&self, id: NamedNode, fresh: &mut FreshVariables) -> (r: ConstructQuery)
        requires
            old(fresh).issued() + 1 + self@.names_needed() <= u64::MAX,
        ensures
            r@ == self@.describe(fresh_name(old(fresh).issued()), old(fresh).issued() + 1).filter(
                EqualityModel { variable: fresh_name(old(fresh).issued()), id: id@ },
            ),
            r@.is_complete(),
            final(fresh).issued() == old(fresh).issued() + 1 + self@.names_needed(),
    {
        let binding = fresh.next();
        let query = self.to_query_with_binding(binding.duplicate(), fresh);
        query.filter_variable(binding, id)
    }
}

} // verus!
