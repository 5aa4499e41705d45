use vstd::prelude::*;
use crate::model::iri::Iri;
use crate::text::{decimal, decimal_text};

verus! {

pub const PREFIX: &'static str = "hgnc";

/// The text of the HGNC namespace.
pub open spec fn namespace_text() -> Seq<char> {
    "http://identifiers.org/hgnc/"@
}

/// The HGNC namespace.
pub fn namespace() -> (r: Iri)
    ensures
        r@ == namespace_text(),
{
    Iri::new_str("http://identifiers.org/hgnc/")
}

/// The IRI of the HGNC entry with the number `id`: the namespace and the
/// number in decimal.
pub fn create_iri(id: u32) -> (r: Iri)
    ensures
        r@ == namespace_text() + decimal(id as nat),
{
    namespace().join(decimal_text(id as usize))
}

} // verus!
