use vstd::prelude::*;
use vstd::string::StringExecFns;

verus! {

/// The name of a tag or an attribute, as the tokenizer resolved it.
#[derive(Debug, PartialEq, Eq)]
pub struct Name {
    pub local_name: String,
    pub namespace: Option<String>,
    pub prefix: Option<String>,
}

/// One attribute of a start tag.
#[derive(Debug, PartialEq, Eq)]
pub struct Attribute {
    pub name: Name,
    pub value: String,
}

/// One lexical event of an XML document.
#[derive(Debug, PartialEq, Eq)]
pub enum XmlEvent {
    StartDocument,
    EndDocument,
    ProcessingInstruction,
    StartElement { name: Name, attributes: Vec<Attribute>, namespace: Vec<(String, String)> },
    EndElement { name: Name },
    CData(String),
    Comment,
    Characters(String),
    Whitespace,
}

/// What a `Name` stands for.
pub struct NameView {
    pub local_name: Seq<char>,
    pub namespace: Option<Seq<char>>,
    pub prefix: Option<Seq<char>>,
}

/// What an `Attribute` stands for.
pub struct AttributeView {
    pub name: NameView,
    pub value: Seq<char>,
}

/// What an `XmlEvent` stands for.
pub enum EventView {
    StartDocument,
    EndDocument,
    ProcessingInstruction,
    StartElement {
        name: NameView,
        attributes: Seq<AttributeView>,
        namespace: Seq<(Seq<char>, Seq<char>)>,
    },
    EndElement { name: NameView },
    CData(Seq<char>),
    Comment,
    Characters(Seq<char>),
    Whitespace,
}

/// The text of an optional string.
pub open spec fn optional_string(s: Option<String>) -> Option<Seq<char>> {
    match s {
        Some(t) => Some(t@),
        None => None,
    }
}

/// The views of a vector of attributes, one for one.
pub open spec fn attributes_of(v: Seq<Attribute>) -> Seq<AttributeView> {
    Seq::new(v.len(), |i: int| v[i]@)
}

/// The views of a vector of namespace declarations, one for one.
pub open spec fn mappings_of(v: Seq<(String, String)>) -> Seq<(Seq<char>, Seq<char>)> {
    Seq::new(v.len(), |i: int| (v[i].0@, v[i].1@))
}

/// The views of a vector of events, one for one.
pub open spec fn events_of(v: Seq<XmlEvent>) -> Seq<EventView> {
    Seq::new(v.len(), |i: int| v[i]@)
}

impl View for Name {
    type V = NameView;

    open spec fn view(&self) -> NameView {
        NameView {
            local_name: self.local_name@,
            namespace: optional_string(self.namespace),
            prefix: optional_string(self.prefix),
        }
    }
}

impl View for Attribute {
    type V = AttributeView;

    open spec fn view(&self) -> AttributeView {
        AttributeView { name: self.name@, value: self.value@ }
    }
}

impl View for XmlEvent {
    type V = EventView;

    open spec fn view(&self) -> EventView {
        match self {
            XmlEvent::StartDocument => EventView::StartDocument,
            XmlEvent::EndDocument => EventView::EndDocument,
            XmlEvent::ProcessingInstruction => EventView::ProcessingInstruction,
            XmlEvent::StartElement { name, attributes, namespace } => EventView::StartElement {
                name: name@,
                attributes: attributes_of(attributes@),
                namespace: mappings_of(namespace@),
            },
            XmlEvent::EndElement { name } => EventView::EndElement { name: name@ },
            XmlEvent::CData(s) => EventView::CData(s@),
            XmlEvent::Comment => EventView::Comment,
            XmlEvent::Characters(s) => EventView::Characters(s@),
            XmlEvent::Whitespace => EventView::Whitespace,
        }
    }
}

/// A name as one text: the namespace in braces where there is one, the prefix
/// and a colon where there is one, then the local name.
pub open spec fn name_text(name: NameView) -> Seq<char> {
    (match name.namespace {
        Some(ns) => "{"@ + ns + "}"@,
        None => Seq::empty(),
    }) + (match name.prefix {
        Some(p) => p + ":"@,
        None => Seq::empty(),
    }) + name.local_name
}

/// An attribute as one text: its name, then its value in double quotes after
/// an equals sign.
pub open spec fn attribute_text(attribute: AttributeView) -> Seq<char> {
    name_text(attribute.name) + "=\""@ + attribute.value + "\""@
}

impl Name {
    /// This name as one text.
    pub fn to_text(&self) -> (r: String)
        ensures
            r@ == name_text(self@),
    {
        let mut r = String::new();
        match &self.namespace {
            Some(ns) => {
                r.append("{");
                r.append(ns.as_str());
                r.append("}");
            },
            None => {},
        }
        match &self.prefix {
            Some(p) => {
                r.append(p.as_str());
                r.append(":");
            },
            None => {},
        }
        r.append(self.local_name.as_str());
        assert(r@ =~= name_text(self@));
        r
    }
}

impl Attribute {
    /// This attribute as one text.
    pub fn to_text(&self) -> (r: String)
        ensures
            r@ == attribute_text(self@),
    {
        let mut r = self.name.to_text();
        r.append("=\"");
        r.append(self.value.as_str());
        r.append("\"");
        r
    }
}

} // verus!
