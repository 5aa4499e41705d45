use vstd::prelude::*;
use crate::model::iri::Iri;

verus! {

pub const PREFIX: &'static str = "rdfs";

/// The text of the RDF Schema namespace.
pub open spec fn namespace_text() -> Seq<char> {
    "http://www.w3.org/2000/01/rdf-schema#"@
}

/// The RDF Schema namespace.
pub fn namespace() -> (r: Iri)
    ensures
        r@ == namespace_text(),
{
    Iri::new_str("http://www.w3.org/2000/01/rdf-schema#")
}

/// `rdfs:Resource`.
pub fn resource() -> (r: Iri)
    ensures
        r@ == namespace_text() + "Resource"@,
{
    namespace().join_str("Resource")
}

/// `rdfs:Class`.
pub fn class() -> (r: Iri)
    ensures
        r@ == namespace_text() + "Class"@,
{
    namespace().join_str("Class")
}

/// `rdfs:Literal`.
pub fn literal() -> (r: Iri)
    ensures
        r@ == namespace_text() + "Literal"@,
{
    namespace().join_str("Literal")
}

/// `rdfs:Datatype`.
pub fn datatype() -> (r: Iri)
    ensures
        r@ == namespace_text() + "Datatype"@,
{
    namespace().join_str("Datatype")
}

/// `rdfs:Container`.
pub fn container() -> (r: Iri)
    ensures
        r@ == namespace_text() + "Container"@,
{
    namespace().join_str("Container")
}

/// `rdfs:ContainerMembershipProperty`.
pub fn container_membership_property() -> (r: Iri)
    ensures
        r@ == namespace_text() + "ContainerMembershipProperty"@,
{
    namespace().join_str("ContainerMembershipProperty")
}

/// `rdfs:subClassOf`.
pub fn sub_class_of() -> (r: Iri)
    ensures
        r@ == namespace_text() + "subClassOf"@,
{
    namespace().join_str("subClassOf")
}

/// `rdfs:subPropertyOf`.
pub fn sub_property_of() -> (r: Iri)
    ensures
        r@ == namespace_text() + "subPropertyOf"@,
{
    namespace().join_str("subPropertyOf")
}

/// `rdfs:domain`.
pub fn domain() -> (r: Iri)
    ensures
        r@ == namespace_text() + "domain"@,
{
    namespace().join_str("domain")
}

/// `rdfs:range`.
pub fn range() -> (r: Iri)
    ensures
        r@ == namespace_text() + "range"@,
{
    namespace().join_str("range")
}

/// `rdfs:label`.
pub fn label() -> (r: Iri)
    ensures
        r@ == namespace_text() + "label"@,
{
    namespace().join_str("label")
}

/// `rdfs:comment`.
pub fn comment() -> (r: Iri)
    ensures
        r@ == namespace_text() + "comment"@,
{
    namespace().join_str("comment")
}

/// `rdfs:member`.
pub fn member() -> (r: Iri)
    ensures
        r@ == namespace_text() + "member"@,
{
    namespace().join_str("member")
}

/// `rdfs:isDefinedBy`.
pub fn is_defined_by() -> (r: Iri)
    ensures
        r@ == namespace_text() + "isDefinedBy"@,
{
    namespace().join_str("isDefinedBy")
}

/// `rdfs:seeAlso`.
pub fn see_also() -> (r: Iri)
    ensures
        r@ == namespace_text() + "seeAlso"@,
{
    namespace().join_str("seeAlso")
}

} // verus!
