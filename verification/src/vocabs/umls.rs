use vstd::prelude::*;
use crate::model::iri::Iri;
use vstd::string::StringExecFns;
use crate::text::{padded_decimal, padded_decimal_text, push_char};

verus! {

pub const PREFIX: &'static str = "umls";

/// The text of the UMLS namespace.
pub open spec fn namespace_text() -> Seq<char> {
    "http://id.nlm.nih.gov/mesh/"@
}

/// The level of a UMLS identifier.
#[derive(Clone, Copy, Debug, PartialEq, Eq, Structural)]
pub enum Level {
    Concept,
    Lexical,
    String,
    Atom,
}

/// The letter that identifiers of a level begin with.
pub open spec fn level_letter(level: Level) -> char {
    match level {
        Level::Concept => 'C',
        Level::Lexical => 'L',
        Level::String => 'S',
        Level::Atom => 'A',
    }
}

/// The UMLS namespace.
pub fn namespace() -> (r: Iri)
    ensures
        r@ == namespace_text(),
{
    Iri::new_str("http://id.nlm.nih.gov/mesh/")
}

impl Level {
    /// The letter that identifiers of this level begin with.
    pub fn letter(&self) -> (r: char)
        ensures
            r == level_letter(*self),
    {
        match self {
            Level::Concept => 'C',
            Level::Lexical => 'L',
            Level::String => 'S',
            Level::Atom => 'A',
        }
    }

    /// The IRI of the identifier of this level with the number `id`: the
    /// namespace, the level's letter and the number in seven digits or more.
    pub fn create_iri(&self, id: u32) -> (r: Iri)
        ensures
            r@ == namespace_text() + seq![level_letter(*self)] + padded_decimal(id as nat, 7),
    {
        let mut local = std::string::String::new();
        push_char(&mut local, self.letter());
        let number = padded_decimal_text(id as usize, 7);
        local.append(number.as_str());
        let r = namespace().join(local);
        assert(r@ =~= namespace_text() + seq![level_letter(*self)] + padded_decimal(id as nat, 7));
        r
    }
}

} // verus!
