use vstd::prelude::*;
use crate::model::iri::Iri;

verus! {

pub const PREFIX: &'static str = "xml";

/// The text of the XML namespace.
pub open spec fn namespace_text() -> Seq<char> {
    "http://www.w3.org/XML/1998/namespace"@
}

/// The XML namespace.
pub fn namespace() -> (r: Iri)
    ensures
        r@ == namespace_text(),
{
    Iri::new_str("http://www.w3.org/XML/1998/namespace")
}

} // verus!
