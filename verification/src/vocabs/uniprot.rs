use vstd::prelude::*;
use crate::model::iri::Iri;
use vstd::string::StringExecFns;

verus! {

pub const PREFIX: &'static str = "uniprot";

/// The text of the UniProt core namespace.
pub open spec fn namespace_text() -> Seq<char> {
    "http://purl.uniprot.org/core/"@
}

/// The UniProt core namespace.
pub fn namespace() -> (r: Iri)
    ensures
        r@ == namespace_text(),
{
    Iri::new_str("http://purl.uniprot.org/core/")
}

/// The IRI of the UniProt term `id`: the namespace and the id.
pub fn create_iri(id: &str) -> (r: Iri)
    ensures
        r@ == namespace_text() + id@,
{
    namespace().join(String::from_str(id))
}

} // verus!
