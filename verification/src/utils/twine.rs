use vstd::prelude::*;
use vstd::string::StringExecFns;
use std::sync::Arc;
use crate::text::{compare_text, text_equals, text_rank, Rank};

verus! {

/// A text that is cheap to copy: one that the program holds for good, or one
/// that its copies share.
pub enum Twine {
    Owned(Arc<String>),
    Borrowed(&'static str),
}

impl View for Twine {
    type V = Seq<char>;

    open spec fn view(&self) -> Seq<char> {
        match self {
            Twine::Owned(s) => s@,
            Twine::Borrowed(s) => s@,
        }
    }
}

impl Clone for Twine {
    fn clone(&self) -> (r: Self)
        ensures
            r@ == self@,
    {
        match self {
            Twine::Owned(s) => Twine::Owned(s.clone()),
            Twine::Borrowed(s) => Twine::Borrowed(s),
        }
    }
}

impl PartialEq for Twine {
    fn eq(&self, other: &Self) -> (r: bool) {
        text_equals(self.as_str(), other.as_str())
    }
}

impl vstd::std_specs::cmp::PartialEqSpecImpl for Twine {
    open spec fn obeys_eq_spec() -> bool {
        true
    }

    open spec fn eq_spec(&self, other: &Self) -> bool {
        self@ == other@
    }
}

impl Eq for Twine {

}

impl Twine {
    /// The twine of a text that the program holds for good.
    pub fn from_str(s: &'static str) -> (r: Twine)
        ensures
            r@ == s@,
    {
        Twine::Borrowed(s)
    }

    /// The twine of a string of its own.
    pub fn from_string(s: String) -> (r: Twine)
        ensures
            r@ == s@,
    {
        Twine::Owned(Arc::new(s))
    }

    /// The twine that shares the string `s`.
    pub fn from_shared(s: Arc<String>) -> (r: Twine)
        ensures
            r@ == s@,
    {
        Twine::Owned(s)
    }

    /// The text of this twine.
    pub fn as_str(&self) -> (r: &str)
        ensures
            r@ == self@,
    {
        match self {
            Twine::Owned(s) => s.as_str(),
            Twine::Borrowed(s) => s,
        }
    }

    /// The text of this twine as a string of its own.
    pub fn to_text(&self) -> (r: String)
        ensures
            r@ == self@,
    {
        String::from_str(self.as_str())
    }

    /// Whether two twines hold the same text, however they hold it.
    pub fn equals(&self, other: &Twine) -> (r: bool)
        ensures
            r == (self@ == other@),
    {
        text_equals(self.as_str(), other.as_str())
    }

    /// Where this twine stands relative to `other`: by the bytes of the texts.
    pub fn rank(&self, other: &Twine) -> (r: Rank)
        ensures
            r == text_rank(self@, other@),
    {
        compare_text(self.as_str(), other.as_str())
    }
}

impl From<String> for Twine {
    fn from(s: String) -> (r: Twine)
        ensures
            r@ == s@,
    {
        Twine::Owned(Arc::new(s))
    }
}

impl vstd::std_specs::convert::FromSpecImpl<String> for Twine {
    open spec fn obeys_from_spec() -> bool {
        false
    }

    open spec fn from_spec(s: String) -> Twine {
        arbitrary()
    }
}

impl From<&'static str> for Twine {
    fn from(s: &'static str) -> (r: Twine)
        ensures
            r == Twine::Borrowed(s),
    {
        Twine::Borrowed(s)
    }
}

impl vstd::std_specs::convert::FromSpecImpl<&'static str> for Twine {
    open spec fn obeys_from_spec() -> bool {
        true
    }

    open spec fn from_spec(s: &'static str) -> Twine {
        Twine::Borrowed(s)
    }
}

impl From<Arc<String>> for Twine {
    fn from(s: Arc<String>) -> (r: Twine)
        ensures
            r == Twine::Owned(s),
    {
        Twine::Owned(s)
    }
}

impl vstd::std_specs::convert::FromSpecImpl<Arc<String>> for Twine {
    open spec fn obeys_from_spec() -> bool {
        true
    }

    open spec fn from_spec(s: Arc<String>) -> Twine {
        Twine::Owned(s)
    }
}

impl From<&Arc<String>> for Twine {
    fn from(s: &Arc<String>) -> (r: Twine)
        ensures
            r@ == s@,
    {
        Twine::Owned(s.clone())
    }
}

impl vstd::std_specs::convert::FromSpecImpl<&Arc<String>> for Twine {
    open spec fn obeys_from_spec() -> bool {
        false
    }

    open spec fn from_spec(s: &Arc<String>) -> Twine {
        arbitrary()
    }
}

impl From<&String> for Twine {
    fn from(s: &String) -> (r: Twine)
        ensures
            r@ == s@,
    {
        Twine::Owned(Arc::new(s.clone()))
    }
}

impl vstd::std_specs::convert::FromSpecImpl<&String> for Twine {
    open spec fn obeys_from_spec() -> bool {
        false
    }

    open spec fn from_spec(s: &String) -> Twine {
        arbitrary()
    }
}

} // verus!
