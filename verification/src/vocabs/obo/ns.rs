use vstd::prelude::*;
use crate::model::iri::Iri;
use crate::vocabs::obo::{ontology_namespace_text, Ontology};

verus! {

/// The namespace of CHEBI.
pub fn chebi() -> (r: Iri)
    ensures
        r@ == ontology_namespace_text(Ontology::CHEBI),
{
    Ontology::CHEBI.namespace()
}

/// The namespace of GENO.
pub fn geno() -> (r: Iri)
    ensures
        r@ == ontology_namespace_text(Ontology::GENO),
{
    Ontology::GENO.namespace()
}

/// The namespace of MONDO.
pub fn mondo() -> (r: Iri)
    ensures
        r@ == ontology_namespace_text(Ontology::MONDO),
{
    Ontology::MONDO.namespace()
}

/// The namespace of RO.
pub fn ro() -> (r: Iri)
    ensures
        r@ == ontology_namespace_text(Ontology::RO),
{
    Ontology::RO.namespace()
}

/// The namespace of SO.
pub fn so() -> (r: Iri)
    ensures
        r@ == ontology_namespace_text(Ontology::SO),
{
    Ontology::SO.namespace()
}

/// The namespace of UBERON.
pub fn uberon() -> (r: Iri)
    ensures
        r@ == ontology_namespace_text(Ontology::UBERON),
{
    Ontology::UBERON.namespace()
}

} // verus!
