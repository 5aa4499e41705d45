use vstd::prelude::*;

pub mod graph;
pub mod graph_laws;
pub mod iri;
pub mod literal;
pub mod node;
pub mod order;
pub mod triple;

verus! {

/// What an `Entity` stands for: the text of an IRI, or the id of a blank node.
pub enum EntityView {
    Iri(Seq<char>),
    BlankNode(Seq<char>),
}

/// What a `LiteralTag` stands for: the text of a datatype IRI, or a language tag.
pub enum LiteralTagView {
    Type(Seq<char>),
    LangTag(Seq<char>),
}

/// What a `Literal` stands for: its value string and its tag.
pub struct LiteralView {
    pub string: Seq<char>,
    pub literal_tag: LiteralTagView,
}

/// What a `Node` stands for.
pub enum NodeView {
    Entity(EntityView),
    Literal(LiteralView),
}

/// What a `Triple` stands for.
pub struct TripleView {
    pub subject: EntityView,
    pub predicate: Seq<char>,
    pub object: NodeView,
}

} // verus!
