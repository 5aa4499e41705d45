use vstd::prelude::*;
use crate::model::iri::Iri;

verus! {

pub const PREFIX: &'static str = "rdf";

/// The text of the RDF namespace.
pub open spec fn namespace_text() -> Seq<char> {
    "http://www.w3.org/1999/02/22-rdf-syntax-ns#"@
}

/// The text of `rdf:type`.
pub open spec fn type_text() -> Seq<char> {
    namespace_text() + "type"@
}

/// The RDF namespace.
pub fn namespace() -> (r: Iri)
    ensures
        r@ == namespace_text(),
{
    Iri::new_str("http://www.w3.org/1999/02/22-rdf-syntax-ns#")
}

/// `rdf:type`, the predicate that gives a resource its class.
pub fn type_iri() -> (r: Iri)
    ensures
        r@ == type_text(),
{
    namespace().join_str("type")
}

} // verus!
