//! RDF terms as they occur in triple patterns.

use vstd::prelude::*;
use vstd::string::*;

verus! {

/// The characters with which every name minted by a
/// [`crate::fresh::FreshVariables`] generator starts. No variable that a
/// caller names may start with them.
pub open spec fn reserved_prefix() -> Seq<char> {
    "fresh_"@
}

/// A query variable. Its view is its name, without the leading `?`.
#[derive(Debug, PartialEq, Eq)]
pub struct Variable {
    name: String,
}

impl View for Variable {
    type V = Seq<char>;

    closed spec fn view(&self) -> Seq<char> {
        self.name@
    }
}

/// Whether `text` starts with `prefix`, character by character.
pub fn starts_with(text: &str, prefix: &str) -> (b: bool)
    ensures
        b == prefix@.is_prefix_of(text@),
{
    let n: usize = prefix.unicode_len();
    if text.unicode_len() < n {
        return false;
    }
    let mut i: usize = 0;
    while i < n
        invariant
            n == prefix@.len(),
            n <= text@.len(),
            i <= n,
            forall|j: int| 0 <= j < i ==> text@[j] == prefix@[j],
        decreases n - i,
    {
        if text.get_char(i) != prefix.get_char(i) {
            assert(text@.subrange(0, n as int)[i as int] == text@[i as int]);
            return false;
        }
        i += 1;
    }
    assert(text@.subrange(0, n as int) =~= prefix@);
    true
}

impl Variable {
    /// The variable named `name`, or `None` where the name starts with the
    /// reserved prefix. The name is not validated otherwise.
    pub fn new(name: String) -> (r: Option<Variable>)
        ensures
            r.is_none() <==> reserved_prefix().is_prefix_of(name@),
            r.is_some() ==> r.unwrap()@ == name@,
    {
        if starts_with(name.as_str(), "fresh_") {
            None
        } else {
            Some(Variable { name })
        }
    }

    /// The variable with a name of the reserved kind.
    pub(crate) fn reserved(name: String) -> (r: Variable)
        requires
            reserved_prefix().is_prefix_of(name@),
        ensures
            r@ == name@,
    {
        Variable { name }
    }

    /// The variable's name.
    pub fn as_str(&self) -> (r: &str)
        ensures
            r@ == self@,
    {
        self.name.as_str()
    }

    /// A copy of the variable.
    pub fn duplicate(&self) -> (r: Variable)
        ensures
            r@ == self@,
    {
        Variable { name: self.name.clone() }
    }
}

/// An IRI. Its view is its lexical form, which is not validated.
#[derive(Debug, PartialEq, Eq)]
pub struct NamedNode {
    iri: String,
}

impl View for NamedNode {
    type V = Seq<char>;

    closed spec fn view(&self) -> Seq<char> {
        self.iri@
    }
}

impl NamedNode {
    /// The named node with the lexical form `iri`, taken as it is.
    pub fn new(iri: String) -> (r: NamedNode)
        ensures
            r@ == iri@,
    {
        NamedNode { iri }
    }

    /// The IRI's lexical form.
    pub fn as_str(&self) -> (r: &str)
        ensures
            r@ == self@,
    {
        self.iri.as_str()
    }

    /// A copy of the named node.
    pub fn duplicate(&self) -> (r: NamedNode)
        ensures
            r@ == self@,
    {
        NamedNode { iri: self.iri.clone() }
    }
}

/// What a term is, as a mathematical value.
pub enum TermModel {
    Variable(Seq<char>),
    NamedNode(Seq<char>),
    BlankNode(Seq<char>),
    Literal(Seq<char>, Seq<char>),
}

/// A term in the object position of a triple pattern.
#[derive(Debug, PartialEq, Eq)]
pub enum Term {
    Variable(Variable),
    NamedNode(NamedNode),
    BlankNode(String),
    Literal { lexical: String, datatype: NamedNode },
}

impl View for Term {
    type V = TermModel;

    open spec fn view(&self) -> TermModel {
        match self {
            Term::Variable(v) => TermModel::Variable(v@),
            Term::NamedNode(n) => TermModel::NamedNode(n@),
            Term::BlankNode(b) => TermModel::BlankNode(b@),
            Term::Literal { lexical, datatype } => TermModel::Literal(lexical@, datatype@),
        }
    }
}

impl Term {
    /// A copy of the term.
    pub fn duplicate(&self) -> (r: Term)
        ensures
            r@ == self@,
    {
        match self {
            Term::Variable(v) => Term::Variable(v.duplicate()),
            Term::NamedNode(n) => Term::NamedNode(n.duplicate()),
            Term::BlankNode(b) => Term::BlankNode(b.clone()),
            Term::Literal { lexical, datatype } => Term::Literal {
                lexical: lexical.clone(),
                datatype: datatype.duplicate(),
            },
        }
    }
}

/// A term in the subject position: anything but a literal.
#[derive(Debug, PartialEq, Eq)]
pub enum Subject {
    Variable(Variable),
    NamedNode(NamedNode),
    BlankNode(String),
}

impl View for Subject {
    type V = TermModel;

    open spec fn view(&self) -> TermModel {
        match self {
            Subject::Variable(v) => TermModel::Variable(v@),
            Subject::NamedNode(n) => TermModel::NamedNode(n@),
            Subject::BlankNode(b) => TermModel::BlankNode(b@),
        }
    }
}

impl Subject {
    /// A copy of the subject.
    pub fn duplicate(&self) -> (r: Subject)
        ensures
            r@ == self@,
    {
        match self {
            Subject::Variable(v) => Subject::Variable(v.duplicate()),
            Subject::NamedNode(n) => Subject::NamedNode(n.duplicate()),
            Subject::BlankNode(b) => Subject::BlankNode(b.clone()),
        }
    }
}

/// A term in the predicate position: a named node or a variable.
#[derive(Debug, PartialEq, Eq)]
pub enum Predicate {
    NamedNode(NamedNode),
    Variable(Variable),
}

/// What a predicate is, as a mathematical value.
pub enum PredicateModel {
    NamedNode(Seq<char>),
    Variable(Seq<char>),
}

impl View for Predicate {
    type V = PredicateModel;

    open spec fn view(&self) -> PredicateModel {
        match self {
            Predicate::NamedNode(n) => PredicateModel::NamedNode(n@),
            Predicate::Variable(v) => PredicateModel::Variable(v@),
        }
    }
}

impl Predicate {
    /// A copy of the predicate.
    pub fn duplicate(&self) -> (r: Predicate)
        ensures
            r@ == self@,
    {
        match self {
            Predicate::NamedNode(n) => Predicate::NamedNode(n.duplicate()),
            Predicate::Variable(v) => Predicate::Variable(v.duplicate()),
        }
    }
}

/// The variables that occur in a term: the term itself where it is one.
pub open spec fn term_variables(t: TermModel) -> Set<Seq<char>> {
    match t {
        TermModel::Variable(name) => set![name],
        _ => Set::empty(),
    }
}

/// The variables that occur in a predicate: the predicate itself where it
/// is one.
pub open spec fn predicate_variables(p: PredicateModel) -> Set<Seq<char>> {
    match p {
        PredicateModel::Variable(name) => set![name],
        PredicateModel::NamedNode(_) => Set::empty(),
    }
}

} // verus!
