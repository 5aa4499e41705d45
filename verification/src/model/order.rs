use vstd::prelude::*;
use crate::model::{EntityView, LiteralTagView, LiteralView, NodeView, TripleView};
use crate::text::{lemma_text_rank_laws, rank_flip, rank_then, text_rank, Rank};

verus! {

/// Order of entities: every IRI comes before every blank node; two of a kind
/// are ordered by their text.
pub open spec fn entity_rank(a: EntityView, b: EntityView) -> Rank {
    match (a, b) {
        (EntityView::Iri(x), EntityView::Iri(y)) => text_rank(x, y),
        (EntityView::Iri(_), EntityView::BlankNode(_)) => Rank::Less,
        (EntityView::BlankNode(_), EntityView::Iri(_)) => Rank::Greater,
        (EntityView::BlankNode(x), EntityView::BlankNode(y)) => text_rank(x, y),
    }
}

/// Order of literal tags: every datatype comes before every language tag; two
/// of a kind are ordered by their text.
pub open spec fn literal_tag_rank(a: LiteralTagView, b: LiteralTagView) -> Rank {
    match (a, b) {
        (LiteralTagView::Type(x), LiteralTagView::Type(y)) => text_rank(x, y),
        (LiteralTagView::Type(_), LiteralTagView::LangTag(_)) => Rank::Less,
        (LiteralTagView::LangTag(_), LiteralTagView::Type(_)) => Rank::Greater,
        (LiteralTagView::LangTag(x), LiteralTagView::LangTag(y)) => text_rank(x, y),
    }
}

/// Order of literals: by value string, then by tag.
pub open spec fn literal_rank(a: LiteralView, b: LiteralView) -> Rank {
    rank_then(text_rank(a.string, b.string), literal_tag_rank(a.literal_tag, b.literal_tag))
}

/// Order of nodes: every entity comes before every literal.
pub open spec fn node_rank(a: NodeView, b: NodeView) -> Rank {
    match (a, b) {
        (NodeView::Entity(x), NodeView::Entity(y)) => entity_rank(x, y),
        (NodeView::Entity(_), NodeView::Literal(_)) => Rank::Less,
        (NodeView::Literal(_), NodeView::Entity(_)) => Rank::Greater,
        (NodeView::Literal(x), NodeView::Literal(y)) => literal_rank(x, y),
    }
}

/// The canonical order of triples: by subject, then predicate, then object.
#[verifier::opaque]
pub open spec fn triple_rank(a: TripleView, b: TripleView) -> Rank {
    rank_then(
        entity_rank(a.subject, b.subject),
        rank_then(text_rank(a.predicate, b.predicate), node_rank(a.object, b.object)),
    )
}

/// The order laws of `entity_rank` on three entities.
pub proof fn lemma_entity_rank_laws(a: EntityView, b: EntityView, c: EntityView)
    ensures
        entity_rank(a, b) is Equal <==> a == b,
        entity_rank(b, c) is Equal <==> b == c,
        entity_rank(a, c) is Equal <==> a == c,
        entity_rank(b, a) == rank_flip(entity_rank(a, b)),
        entity_rank(a, b) is Less && entity_rank(b, c) is Less ==> entity_rank(a, c) is Less,
{
    let x = match a { EntityView::Iri(t) => t, EntityView::BlankNode(t) => t };
    let y = match b { EntityView::Iri(t) => t, EntityView::BlankNode(t) => t };
    let z = match c { EntityView::Iri(t) => t, EntityView::BlankNode(t) => t };
    lemma_text_rank_laws(x, y, z);
}

/// The order laws of `literal_tag_rank` on three tags.
pub proof fn lemma_literal_tag_rank_laws(a: LiteralTagView, b: LiteralTagView, c: LiteralTagView)
    ensures
        literal_tag_rank(a, b) is Equal <==> a == b,
        literal_tag_rank(b, c) is Equal <==> b == c,
        literal_tag_rank(a, c) is Equal <==> a == c,
        literal_tag_rank(b, a) == rank_flip(literal_tag_rank(a, b)),
        literal_tag_rank(a, b) is Less && literal_tag_rank(b, c) is Less ==> literal_tag_rank(
            a,
            c,
        ) is Less,
{
    let x = match a { LiteralTagView::Type(t) => t, LiteralTagView::LangTag(t) => t };
    let y = match b { LiteralTagView::Type(t) => t, LiteralTagView::LangTag(t) => t };
    let z = match c { LiteralTagView::Type(t) => t, LiteralTagView::LangTag(t) => t };
    lemma_text_rank_laws(x, y, z);
}

/// The order laws of `literal_rank` on three literals.
pub proof fn lemma_literal_rank_laws(a: LiteralView, b: LiteralView, c: LiteralView)
    ensures
        literal_rank(a, b) is Equal <==> a == b,
        literal_rank(b, c) is Equal <==> b == c,
        literal_rank(a, c) is Equal <==> a == c,
        literal_rank(b, a) == rank_flip(literal_rank(a, b)),
        literal_rank(a, b) is Less && literal_rank(b, c) is Less ==> literal_rank(a, c) is Less,
{
    lemma_text_rank_laws(a.string, b.string, c.string);
    lemma_literal_tag_rank_laws(a.literal_tag, b.literal_tag, c.literal_tag);
}

/// The order laws of `node_rank` on three nodes.
pub proof fn lemma_node_rank_laws(a: NodeView, b: NodeView, c: NodeView)
    ensures
        node_rank(a, b) is Equal <==> a == b,
        node_rank(b, c) is Equal <==> b == c,
        node_rank(a, c) is Equal <==> a == c,
        node_rank(b, a) == rank_flip(node_rank(a, b)),
        node_rank(a, b) is Less && node_rank(b, c) is Less ==> node_rank(a, c) is Less,
{
    match (a, b, c) {
        (NodeView::Entity(x), NodeView::Entity(y), NodeView::Entity(z)) => {
            lemma_entity_rank_laws(x, y, z);
        },
        (NodeView::Literal(x), NodeView::Literal(y), NodeView::Literal(z)) => {
            lemma_literal_rank_laws(x, y, z);
        },
        (NodeView::Entity(x), NodeView::Entity(y), _) => {
            lemma_entity_rank_laws(x, y, y);
        },
        (NodeView::Entity(x), _, NodeView::Entity(z)) => {
            lemma_entity_rank_laws(x, z, z);
        },
        (_, NodeView::Entity(y), NodeView::Entity(z)) => {
            lemma_entity_rank_laws(y, z, z);
        },
        (NodeView::Literal(x), NodeView::Literal(y), _) => {
            lemma_literal_rank_laws(x, y, y);
        },
        (NodeView::Literal(x), _, NodeView::Literal(z)) => {
            lemma_literal_rank_laws(x, z, z);
        },
        (_, NodeView::Literal(y), NodeView::Literal(z)) => {
            lemma_literal_rank_laws(y, z, z);
        },
    }
}

/// The canonical order is a strict total order: two triples rank `Equal`
/// exactly when they are the same triple, exchanging the arguments flips the
/// rank, and `Less` is transitive.
pub proof fn lemma_triple_rank_laws(a: TripleView, b: TripleView, c: TripleView)
    ensures
        triple_rank(a, b) is Equal <==> a == b,
        triple_rank(b, c) is Equal <==> b == c,
        triple_rank(a, c) is Equal <==> a == c,
        triple_rank(b, a) == rank_flip(triple_rank(a, b)),
        triple_rank(a, b) is Less && triple_rank(b, c) is Less ==> triple_rank(a, c) is Less,
{
    reveal(triple_rank);
    lemma_entity_rank_laws(a.subject, b.subject, c.subject);
    lemma_text_rank_laws(a.predicate, b.predicate, c.predicate);
    lemma_node_rank_laws(a.object, b.object, c.object);
}

} // verus!
