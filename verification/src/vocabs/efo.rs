use vstd::prelude::*;
use crate::model::iri::Iri;
use crate::text::{padded_decimal, padded_decimal_text};

verus! {

pub const PREFIX: &'static str = "efo";

/// The text of the EFO namespace.
pub open spec fn namespace_text() -> Seq<char> {
    "http://www.ebi.ac.uk/efo/EFO_"@
}

/// The EFO namespace.
pub fn namespace() -> (r: Iri)
    ensures
        r@ == namespace_text(),
{
    Iri::new_str("http://www.ebi.ac.uk/efo/EFO_")
}

/// The IRI for the number `id`: the UniProt core namespace and the number in
/// seven digits or more.
pub fn create_iri(id: u32) -> (r: Iri)
    ensures
        r@ == crate::vocabs::uniprot::namespace_text() + padded_decimal(id as nat, 7),
{
    crate::vocabs::uniprot::namespace().join(padded_decimal_text(id as usize, 7))
}

} // verus!
