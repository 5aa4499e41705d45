use vstd::prelude::*;
use vstd::string::StringExecFns;
use std::sync::Arc;
use crate::text::{compare_text, text_equals, text_rank, Rank};

verus! {

/// An absolute resource identifier, compared and ordered by its text alone.
/// Copies share the text.
#[derive(Debug, Eq, PartialOrd, Ord)]
pub struct Iri {
    pub(crate) iri: Arc<String>,
}

impl View for Iri {
    type V = Seq<char>;

    closed spec fn view(&self) -> Seq<char> {
        self.iri@
    }
}

impl PartialEq for Iri {
    fn eq(&self, other: &Self) -> (r: bool) {
        text_equals(self.iri.as_str(), other.iri.as_str())
    }
}

impl vstd::std_specs::cmp::PartialEqSpecImpl for Iri {
    open spec fn obeys_eq_spec() -> bool {
        true
    }

    open spec fn eq_spec(&self, other: &Self) -> bool {
        self@ == other@
    }
}

impl Clone for Iri {
    fn clone(&self) -> (r: Self)
        ensures
            r == *self,
    {
        Iri { iri: self.iri.clone() }
    }
}

impl Iri {
    /// The IRI with the given text.
    pub fn new(iri: String) -> (r: Iri)
        ensures
            r@ == iri@,
    {
        Iri { iri: Arc::new(iri) }
    }

    /// The IRI with the given text.
    pub fn new_str(string: &'static str) -> (r: Iri)
        ensures
            r@ == string@,
    {
        Iri { iri: Arc::new(String::from_str(string)) }
    }

    /// The IRI under this one that `local` names: this text followed by `local`.
    pub fn join_str(&self, local: &'static str) -> (r: Iri)
        ensures
            r@ == self@ + local@,
    {
        Iri { iri: Arc::new(String::from_str(self.iri.as_str()).concat(local)) }
    }

    /// The IRI under this one that `local` names: this text followed by `local`.
    pub fn join(&self, local: String) -> (r: Iri)
        ensures
            r@ == self@ + local@,
    {
        Iri { iri: Arc::new(String::from_str(self.iri.as_str()).concat(local.as_str())) }
    }

    /// Whether `bytes` are exactly the UTF-8 bytes of this IRI's text.
    pub fn same_as(&self, bytes: &[u8]) -> (r: bool)
        ensures
            r == (bytes@ == vstd::utf8::encode_utf8(self@)),
    {
        let own = self.iri.as_str().as_bytes();
        if own.len() != bytes.len() {
            return false;
        }
        let mut i: usize = 0;
        while i < own.len()
            invariant
                own@ == vstd::utf8::encode_utf8(self@),
                own.len() == bytes.len(),
                i <= own.len(),
                forall|j: int| 0 <= j < i ==> own@[j] == bytes@[j],
            decreases own.len() - i,
        {
            if own[i] != bytes[i] {
                return false;
            }
            i = i + 1;
        }
        assert(own@ =~= bytes@);
        true
    }

    /// Whether `text` is exactly this IRI's text.
    pub fn same_text(&self, text: &str) -> (r: bool)
        ensures
            r == (self@ == text@),
    {
        proof {
            vstd::utf8::encode_utf8_decode_utf8(self@);
            vstd::utf8::encode_utf8_decode_utf8(text@);
        }
        self.same_as(text.as_bytes())
    }

    /// The text of this IRI.
    pub fn as_str(&self) -> (r: &str)
        ensures
            r@ == self@,
    {
        self.iri.as_str()
    }

    /// Where this IRI stands relative to `other` in the order of IRIs, which is
    /// the lexicographic order of their bytes.
    pub fn rank(&self, other: &Iri) -> (r: Rank)
        ensures
            r == text_rank(self@, other@),
    {
        compare_text(self.iri.as_str(), other.iri.as_str())
    }
}

impl From<String> for Iri {
    fn from(string: String) -> (r: Iri)
        ensures
            r@ == string@,
    {
        Iri::new(string)
    }
}

impl vstd::std_specs::convert::FromSpecImpl<String> for Iri {
    open spec fn obeys_from_spec() -> bool {
        false
    }

    open spec fn from_spec(string: String) -> Iri {
        arbitrary()
    }
}

impl From<&'static str> for Iri {
    fn from(string: &'static str) -> (r: Iri)
        ensures
            r@ == string@,
    {
        Iri::new_str(string)
    }
}

impl vstd::std_specs::convert::FromSpecImpl<&'static str> for Iri {
    open spec fn obeys_from_spec() -> bool {
        false
    }

    open spec fn from_spec(string: &'static str) -> Iri {
        arbitrary()
    }
}

impl From<&Iri> for Iri {
    fn from(iri: &Iri) -> (r: Iri)
        ensures
            r == *iri,
    {
        iri.clone()
    }
}

impl vstd::std_specs::convert::FromSpecImpl<&Iri> for Iri {
    open spec fn obeys_from_spec() -> bool {
        true
    }

    open spec fn from_spec(iri: &Iri) -> Iri {
        *iri
    }
}

} // verus!
