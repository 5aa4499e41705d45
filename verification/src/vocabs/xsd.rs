use vstd::prelude::*;
use crate::model::iri::Iri;

verus! {

pub const PREFIX: &'static str = "xsd";

/// The text of the XML Schema namespace.
pub open spec fn namespace_text() -> Seq<char> {
    "http://www.w3.org/2001/XMLSchema#"@
}

/// The text of `xsd:string`, the datatype of a literal that names none.
pub open spec fn string_text() -> Seq<char> {
    namespace_text() + "string"@
}

/// The XML Schema namespace.
pub fn namespace() -> (r: Iri)
    ensures
        r@ == namespace_text(),
{
    Iri::new_str("http://www.w3.org/2001/XMLSchema#")
}

/// `xsd:string`.
pub fn string() -> (r: Iri)
    ensures
        r@ == string_text(),
{
    namespace().join_str("string")
}

/// `xsd:double`.
pub fn double() -> (r: Iri)
    ensures
        r@ == namespace_text() + "double"@,
{
    namespace().join_str("double")
}

} // verus!
