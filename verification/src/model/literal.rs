use vstd::prelude::*;
use crate::model::iri::Iri;
use crate::model::order::{literal_rank, literal_tag_rank};
use crate::model::{LiteralTagView, LiteralView};
use crate::text::{compare_text, text_equals, Rank};
use crate::vocabs::xsd;

verus! {

/// What qualifies a literal's value: its datatype, or the language it is in.
#[derive(Debug, Eq, PartialOrd, Ord)]
pub enum LiteralTag {
    Type(Iri),
    LangTag(String),
}

/// A value node: a string with exactly one tag.
#[derive(Debug, Eq, PartialOrd, Ord)]
pub struct Literal {
    pub string: String,
    pub literal_tag: LiteralTag,
}

impl View for LiteralTag {
    type V = LiteralTagView;

    open spec fn view(&self) -> LiteralTagView {
        match self {
            LiteralTag::Type(iri) => LiteralTagView::Type(iri@),
            LiteralTag::LangTag(lang) => LiteralTagView::LangTag(lang@),
        }
    }
}

impl View for Literal {
    type V = LiteralView;

    open spec fn view(&self) -> LiteralView {
        LiteralView { string: self.string@, literal_tag: self.literal_tag@ }
    }
}

impl PartialEq for LiteralTag {
    fn eq(&self, other: &Self) -> (r: bool) {
        match self {
            LiteralTag::Type(x) => match other {
                LiteralTag::Type(y) => x == y,
                LiteralTag::LangTag(_) => false,
            },
            LiteralTag::LangTag(x) => match other {
                LiteralTag::Type(_) => false,
                LiteralTag::LangTag(y) => text_equals(x.as_str(), y.as_str()),
            },
        }
    }
}

impl vstd::std_specs::cmp::PartialEqSpecImpl for LiteralTag {
    open spec fn obeys_eq_spec() -> bool {
        true
    }

    open spec fn eq_spec(&self, other: &Self) -> bool {
        self@ == other@
    }
}

impl PartialEq for Literal {
    fn eq(&self, other: &Self) -> (r: bool) {
        text_equals(self.string.as_str(), other.string.as_str()) && self.literal_tag == other.literal_tag
    }
}

impl vstd::std_specs::cmp::PartialEqSpecImpl for Literal {
    open spec fn obeys_eq_spec() -> bool {
        true
    }

    open spec fn eq_spec(&self, other: &Self) -> bool {
        self@ == other@
    }
}

impl Clone for LiteralTag {
    fn clone(&self) -> (r: Self)
        ensures
            r == *self,
    {
        match self {
            LiteralTag::Type(iri) => LiteralTag::Type(iri.clone()),
            LiteralTag::LangTag(lang) => LiteralTag::LangTag(lang.clone()),
        }
    }
}

impl Clone for Literal {
    fn clone(&self) -> (r: Self)
        ensures
            r == *self,
    {
        Literal { string: self.string.clone(), literal_tag: self.literal_tag.clone() }
    }
}

impl LiteralTag {
    /// Where this tag stands relative to `other` in the order of tags.
    pub fn rank(&self, other: &LiteralTag) -> (r: Rank)
        ensures
            r == literal_tag_rank(self@, other@),
    {
        match self {
            LiteralTag::Type(x) => match other {
                LiteralTag::Type(y) => x.rank(y),
                LiteralTag::LangTag(_) => Rank::Less,
            },
            LiteralTag::LangTag(x) => match other {
                LiteralTag::Type(_) => Rank::Greater,
                LiteralTag::LangTag(y) => compare_text(x.as_str(), y.as_str()),
            },
        }
    }
}

impl Literal {
    /// The literal with the given value and tag.
    pub fn new(string: String, literal_tag: LiteralTag) -> (r: Literal)
        ensures
            r@ == (LiteralView { string: string@, literal_tag: literal_tag@ }),
    {
        Literal { string, literal_tag }
    }

    /// Where this literal stands relative to `other`: by value, then by tag.
    pub fn rank(&self, other: &Literal) -> (r: Rank)
        ensures
            r == literal_rank(self@, other@),
    {
        match compare_text(self.string.as_str(), other.string.as_str()) {
            Rank::Less => Rank::Less,
            Rank::Greater => Rank::Greater,
            Rank::Equal => self.literal_tag.rank(&other.literal_tag),
        }
    }
}

impl From<String> for Literal {
    fn from(string: String) -> (r: Literal)
        ensures
            r@ == (LiteralView { string: string@, literal_tag: LiteralTagView::Type(xsd::string_text()) }),
    {
        Literal { string, literal_tag: LiteralTag::Type(xsd::string()) }
    }
}

impl vstd::std_specs::convert::FromSpecImpl<String> for Literal {
    open spec fn obeys_from_spec() -> bool {
        false
    }

    open spec fn from_spec(string: String) -> Literal {
        arbitrary()
    }
}

} // verus!
