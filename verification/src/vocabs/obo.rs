use vstd::prelude::*;
use crate::model::iri::Iri;
use crate::text::{padded_decimal, padded_decimal_text};

pub mod ns;
pub mod prefixes;

verus! {

pub const PREFIX: &'static str = "obo";

/// The text of the OBO namespace.
pub open spec fn namespace_text() -> Seq<char> {
    "http://purl.obolibrary.org/obo/"@
}

/// The ontologies of the OBO Foundry that have a namespace here.
#[derive(Clone, Copy, Debug, PartialEq, Eq, Structural)]
pub enum Ontology {
    CHEBI,
    GENO,
    MONDO,
    RO,
    SO,
    UBERON,
}

/// The text of the namespace of an ontology: the OBO namespace, the
/// ontology's name and an underscore.
pub open spec fn ontology_namespace_text(ontology: Ontology) -> Seq<char> {
    namespace_text() + match ontology {
        Ontology::CHEBI => "CHEBI_"@,
        Ontology::GENO => "GENO_"@,
        Ontology::MONDO => "MONDO_"@,
        Ontology::RO => "RO_"@,
        Ontology::SO => "SO_"@,
        Ontology::UBERON => "UBERON_"@,
    }
}

/// The OBO namespace.
pub fn namespace() -> (r: Iri)
    ensures
        r@ == namespace_text(),
{
    Iri::new_str("http://purl.obolibrary.org/obo/")
}

impl Ontology {
    /// The namespace of this ontology.
    pub fn namespace(&self) -> (r: Iri)
        ensures
            r@ == ontology_namespace_text(*self),
    {
        match self {
            Ontology::CHEBI => self::namespace().join_str("CHEBI_"),
            Ontology::GENO => self::namespace().join_str("GENO_"),
            Ontology::MONDO => self::namespace().join_str("MONDO_"),
            Ontology::RO => self::namespace().join_str("RO_"),
            Ontology::SO => self::namespace().join_str("SO_"),
            Ontology::UBERON => self::namespace().join_str("UBERON_"),
        }
    }

    /// The IRI of the term of this ontology with the number `id`: the
    /// ontology's namespace and the number in seven digits or more.
    pub fn create_iri(&self, id: u32) -> (r: Iri)
        ensures
            r@ == ontology_namespace_text(*self) + padded_decimal(id as nat, 7),
    {
        self.namespace().join(padded_decimal_text(id as usize, 7))
    }
}

} // verus!
