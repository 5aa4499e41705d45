use vstd::prelude::*;
use crate::model::iri::Iri;

verus! {

pub const PREFIX: &'static str = "oboInOwl";

/// The text of the oboInOwl namespace.
pub open spec fn namespace_text() -> Seq<char> {
    "http://www.geneontology.org/formats/oboInOwl#"@
}

/// The oboInOwl namespace.
pub fn namespace() -> (r: Iri)
    ensures
        r@ == namespace_text(),
{
    Iri::new_str("http://www.geneontology.org/formats/oboInOwl#")
}

/// `oboInOwl:hasExactSynonym`.
pub fn has_exact_synonym() -> (r: Iri)
    ensures
        r@ == namespace_text() + "hasExactSynonym"@,
{
    namespace().join_str("hasExactSynonym")
}

} // verus!
