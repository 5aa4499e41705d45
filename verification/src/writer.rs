use vstd::prelude::*;
use vstd::string::{StrSliceExecFns, StringExecFns};
use crate::model::graph::{bindings_of, views_of, Graph, GraphView};
use crate::model::iri::Iri;
use crate::model::literal::{Literal, LiteralTag};
use crate::model::node::{BlankNode, Entity, Node};
use crate::model::triple::Triple;
use crate::model::{EntityView, LiteralTagView, LiteralView, NodeView, TripleView};
use crate::text::{
    alphanumeric_answers, alphanumerics, answer, answer_at, chars_of, is_prefix_of,
};
use crate::vocabs::xsd;

verus! {

/// Whether `c` can stand in the local part of an abbreviated IRI, given
/// whether it is a letter or a number.
pub open spec fn plain_local_char_given(c: char, alphanumeric: bool) -> bool {
    alphanumeric || c == '_' || c == '-' || c == '.' || c == ':'
}

/// Whether `s` from position `from` on can stand as the local part of an
/// abbreviated IRI, given of each position whether the character there is a
/// letter or a number.
pub open spec fn plain_local_from(s: Seq<char>, answers: Seq<bool>, from: int) -> bool {
    forall|i: int| from <= i < s.len() ==> plain_local_char_given(#[trigger] s[i], answer(answers, i))
}

/// The position, from `i` on, of the first binding of the table whose
/// namespace `iri` begins with; the length of the table where there is none.
pub open spec fn first_match(prefixes: Seq<(Seq<char>, Seq<char>)>, iri: Seq<char>, i: int) -> int
    decreases prefixes.len() - i,
{
    if i < 0 || i >= prefixes.len() {
        prefixes.len() as int
    } else if is_prefix_of(prefixes[i].1, iri) {
        i
    } else {
        first_match(prefixes, iri, i + 1)
    }
}

/// An IRI as it is written, given of each of its positions whether the
/// character there is a letter or a number: abbreviated by the first binding
/// of the table whose namespace it begins with, where what remains can stand
/// as a local part; else in full, in angle brackets.
pub open spec fn iri_text_with(
    prefixes: Seq<(Seq<char>, Seq<char>)>,
    iri: Seq<char>,
    answers: Seq<bool>,
) -> Seq<char> {
    let k = first_match(prefixes, iri, 0);
    if 0 <= k < prefixes.len() && plain_local_from(iri, answers, prefixes[k].1.len() as int) {
        prefixes[k].0 + ":"@ + iri.subrange(prefixes[k].1.len() as int, iri.len() as int)
    } else {
        "<"@ + iri + ">"@
    }
}

/// An IRI as it is written: abbreviated by the first binding of the table whose
/// namespace it begins with, where what remains can stand as a local part; else
/// in full, in angle brackets.
pub open spec fn iri_text(prefixes: Seq<(Seq<char>, Seq<char>)>, iri: Seq<char>) -> Seq<char> {
    iri_text_with(prefixes, iri, alphanumeric_answers(iri))
}

/// An entity as it is written: an IRI, or `_:` and the id of a blank node.
pub open spec fn entity_text(prefixes: Seq<(Seq<char>, Seq<char>)>, entity: EntityView) -> Seq<char> {
    match entity {
        EntityView::Iri(iri) => iri_text(prefixes, iri),
        EntityView::BlankNode(id) => "_:"@ + id,
    }
}

/// A literal as it is written: the value in double quotes; then nothing for a
/// string, `^^` and the datatype for another type, `@` and the tag for a
/// language.
pub open spec fn literal_text(prefixes: Seq<(Seq<char>, Seq<char>)>, literal: LiteralView) -> Seq<char> {
    match literal.literal_tag {
        LiteralTagView::Type(datatype) => if datatype == xsd::string_text() {
            "\""@ + literal.string + "\""@
        } else {
            "\""@ + literal.string + "\"^^"@ + iri_text(prefixes, datatype)
        },
        LiteralTagView::LangTag(lang) => "\""@ + literal.string + "\"@"@ + lang,
    }
}

/// A node as it is written.
pub open spec fn node_text(prefixes: Seq<(Seq<char>, Seq<char>)>, node: NodeView) -> Seq<char> {
    match node {
        NodeView::Entity(entity) => entity_text(prefixes, entity),
        NodeView::Literal(literal) => literal_text(prefixes, literal),
    }
}

/// The lines for the first `n` bindings of the prefix table.
pub open spec fn prefixes_text(prefixes: Seq<(Seq<char>, Seq<char>)>, n: int) -> Seq<char>
    decreases n,
{
    if n <= 0 {
        Seq::empty()
    } else {
        prefixes_text(prefixes, n - 1) + "PREFIX "@ + prefixes[n - 1].0 + ": <"@ + prefixes[n - 1].1
            + ">\n"@
    }
}

/// A triple written whole: subject, predicate and object with a space between.
pub open spec fn whole_text(prefixes: Seq<(Seq<char>, Seq<char>)>, t: TripleView) -> Seq<char> {
    entity_text(prefixes, t.subject) + " "@ + iri_text(prefixes, t.predicate) + " "@ + node_text(
        prefixes,
        t.object,
    )
}

/// What the triple at position `i` adds to the text: after a triple with the
/// same subject and predicate, a comma and the object; after one with the same
/// subject, a semicolon, a new line, the predicate and the object; else the
/// whole triple, after the full stop that ends the statement before it.
pub open spec fn triple_text(prefixes: Seq<(Seq<char>, Seq<char>)>, triples: Seq<TripleView>, i: int) -> Seq<char> {
    let t = triples[i];
    let whole = whole_text(prefixes, t);
    if i == 0 {
        whole
    } else if t.subject == triples[i - 1].subject {
        if t.predicate == triples[i - 1].predicate {
            ", "@ + node_text(prefixes, t.object)
        } else {
            " ;\n    "@ + iri_text(prefixes, t.predicate) + " "@ + node_text(prefixes, t.object)
        }
    } else {
        " .\n"@ + whole
    }
}

/// The text for the first `n` triples, without the full stop that ends the
/// last statement.
pub open spec fn triples_text(prefixes: Seq<(Seq<char>, Seq<char>)>, triples: Seq<TripleView>, n: int) -> Seq<char>
    decreases n,
{
    if n <= 0 {
        Seq::empty()
    } else {
        triples_text(prefixes, triples, n - 1) + triple_text(prefixes, triples, n - 1)
    }
}

/// A graph as it is written: one line for each prefix binding, then the
/// triples in their order, grouped by subject and by predicate.
pub open spec fn graph_text(g: GraphView) -> Seq<char> {
    prefixes_text(g.prefixes, g.prefixes.len() as int) + if g.triples.len() == 0 {
        Seq::empty()
    } else {
        triples_text(g.prefixes, g.triples, g.triples.len() as int) + " .\n"@
    }
}

/// Writes a graph as text: the prefix bindings, then the triples grouped by
/// subject and predicate.
pub fn write<G: Graph>(graph: &G) -> (r: String)
    ensures
        r@ == graph_text(graph.graph_view()),
{
    let mut out = String::new();
    write_prefixes(&mut out, graph);
    write_triples(&mut out, graph);
    out
}

/// Writes one line for each prefix binding.
fn write_prefixes<G: Graph>(out: &mut String, graph: &G)
    ensures
        final(out)@ == old(out)@ + prefixes_text(
            graph.graph_view().prefixes,
            graph.graph_view().prefixes.len() as int,
        ),
{
    let prefixes = graph.prefixes();
    let ghost p = bindings_of(prefixes@);
    let mut i: usize = 0;
    assert(out@ =~= old(out)@ + prefixes_text(p, 0));
    while i < prefixes.len()
        invariant
            p == bindings_of(prefixes@),
            i <= prefixes.len(),
            out@ == old(out)@ + prefixes_text(p, i as int),
        decreases prefixes.len() - i,
    {
        assert(p[i as int] == (prefixes@[i as int].0@, prefixes@[i as int].1@));
        out.append("PREFIX ");
        out.append(prefixes[i].0.as_str());
        out.append(": <");
        out.append(prefixes[i].1.as_str());
        out.append(">\n");
        i = i + 1;
        assert(out@ =~= old(out)@ + prefixes_text(p, i as int));
    }
}

/// Writes the triples, grouped by subject and predicate.
fn write_triples<G: Graph>(out: &mut String, graph: &G)
    ensures
        final(out)@ == old(out)@ + if graph.graph_view().triples.len() == 0 {
            Seq::empty()
        } else {
            triples_text(
                graph.graph_view().prefixes,
                graph.graph_view().triples,
                graph.graph_view().triples.len() as int,
            ) + " .\n"@
        },
{
    let prefixes = graph.prefixes();
    let triples = graph.triples();
    let ghost p = bindings_of(prefixes@);
    let ghost ts = views_of(triples@);
    if triples.len() == 0 {
        assert(out@ =~= old(out)@ + Seq::<char>::empty());
        return ;
    }
    let mut i: usize = 0;
    assert(out@ =~= old(out)@ + triples_text(p, ts, 0));
    while i < triples.len()
        invariant
            p == bindings_of(prefixes@),
            ts == views_of(triples@),
            i <= triples.len(),
            out@ == old(out)@ + triples_text(p, ts, i as int),
        decreases triples.len() - i,
    {
        let ghost before = out@;
        write_triple(out, &triples, i, prefixes);
        i = i + 1;
        assert(out@ =~= old(out)@ + triples_text(p, ts, i as int));
    }
    out.append(" .\n");
    assert(out@ =~= old(out)@ + (triples_text(p, ts, triples.len() as int) + " .\n"@));
}

/// Writes what the triple at position `i` adds to the text.
fn write_triple(out: &mut String, triples: &Vec<Triple>, i: usize, prefixes: &Vec<(String, Iri)>)
    requires
        i < triples@.len(),
    ensures
        final(out)@ == old(out)@ + triple_text(bindings_of(prefixes@), views_of(triples@), i as int),
{
    let ghost p = bindings_of(prefixes@);
    let ghost ts = views_of(triples@);
    let triple = &triples[i];
    assert(ts[i as int] == triple@);
    if i == 0 {
        write_whole(out, triple, prefixes);
    } else {
        let last_triple = &triples[i - 1];
        assert(ts[i as int - 1] == last_triple@);
        if triple.subject == last_triple.subject {
            if triple.predicate == last_triple.predicate {
                out.append(", ");
                write_node(out, &triple.object, prefixes);
            } else {
                out.append(" ;\n    ");
                write_iri(out, &triple.predicate, prefixes);
                out.append(" ");
                write_node(out, &triple.object, prefixes);
            }
        } else {
            out.append(" .\n");
            write_whole(out, triple, prefixes);
        }
    }
    assert(out@ =~= old(out)@ + triple_text(p, ts, i as int));
}

/// Writes a triple whole: subject, predicate and object.
fn write_whole(out: &mut String, triple: &Triple, prefixes: &Vec<(String, Iri)>)
    ensures
        final(out)@ == old(out)@ + whole_text(bindings_of(prefixes@), triple@),
{
    write_entity(out, &triple.subject, prefixes);
    out.append(" ");
    write_iri(out, &triple.predicate, prefixes);
    out.append(" ");
    write_node(out, &triple.object, prefixes);
    assert(out@ =~= old(out)@ + whole_text(bindings_of(prefixes@), triple@));
}

/// Writes a node.
fn write_node(out: &mut String, node: &Node, prefixes: &Vec<(String, Iri)>)
    ensures
        final(out)@ == old(out)@ + node_text(bindings_of(prefixes@), node@),
{
    match node {
        Node::Entity(entity) => write_entity(out, entity, prefixes),
        Node::Literal(literal) => write_literal(out, literal, prefixes),
    }
}

/// Writes an entity.
fn write_entity(out: &mut String, entity: &Entity, prefixes: &Vec<(String, Iri)>)
    ensures
        final(out)@ == old(out)@ + entity_text(bindings_of(prefixes@), entity@),
{
    match entity {
        Entity::Iri(iri) => write_iri(out, iri, prefixes),
        Entity::BlankNode(blank_node) => write_blank_node(out, blank_node),
    }
}

/// Whether `text` begins with `prefix`.
fn starts_with(text: &Vec<char>, prefix: &Vec<char>) -> (r: bool)
    ensures
        r == is_prefix_of(prefix@, text@),
{
    if prefix.len() > text.len() {
        return false;
    }
    let mut i: usize = 0;
    while i < prefix.len()
        invariant
            prefix.len() <= text.len(),
            i <= prefix.len(),
            forall|j: int| 0 <= j < i ==> text@[j] == prefix@[j],
        decreases prefix.len() - i,
    {
        if text[i] != prefix[i] {
            assert(text@.subrange(0, prefix@.len() as int)[i as int] != prefix@[i as int]);
            return false;
        }
        i = i + 1;
    }
    assert(text@.subrange(0, prefix@.len() as int) =~= prefix@);
    true
}

/// Whether `c` can stand in the local part of an abbreviated IRI, given
/// whether it is a letter or a number.
pub fn is_plain_local_char(c: char, alphanumeric: bool) -> (r: bool)
    ensures
        r == plain_local_char_given(c, alphanumeric),
{
    alphanumeric || c == '_' || c == '-' || c == '.' || c == ':'
}

/// Whether `chars` from position `from` on can stand as the local part of an
/// abbreviated IRI.
fn is_valid_local(chars: &Vec<char>, alphanumeric: &Vec<bool>, from: usize) -> (r: bool)
    ensures
        r == plain_local_from(chars@, alphanumeric@, from as int),
{
    let mut i: usize = from;
    while i < chars.len()
        invariant
            from <= i,
            forall|j: int|
                from <= j < i && j < chars@.len() ==> plain_local_char_given(
                    #[trigger] chars@[j],
                    answer(alphanumeric@, j),
                ),
        decreases chars.len() - i,
    {
        if !is_plain_local_char(chars[i], answer_at(alphanumeric, i)) {
            return false;
        }
        i = i + 1;
    }
    true
}

/// Writes an IRI, abbreviated by the first prefix that fits where what remains
/// can stand as a local part, else in full.
fn write_iri(out: &mut String, iri: &Iri, prefixes: &Vec<(String, Iri)>)
    ensures
        final(out)@ == old(out)@ + iri_text(bindings_of(prefixes@), iri@),
{
    let chars = chars_of(iri.as_str());
    let answers = alphanumerics(&chars);
    write_iri_with(out, iri, prefixes, &answers);
}

/// Writes an IRI, given of each of its positions whether the character there
/// is a letter or a number (beyond the end of the answers the answer is no):
/// abbreviated by the first prefix that fits where what remains can stand as a
/// local part, else in full.
pub fn write_iri_with(
    out: &mut String,
    iri: &Iri,
    prefixes: &Vec<(String, Iri)>,
    alphanumeric: &Vec<bool>,
)
    ensures
        final(out)@ == old(out)@ + iri_text_with(bindings_of(prefixes@), iri@, alphanumeric@),
{
    let ghost p = bindings_of(prefixes@);
    let chars = chars_of(iri.as_str());
    let mut i: usize = 0;
    while i < prefixes.len()
        invariant
            *out == *old(out),
            p == bindings_of(prefixes@),
            chars@ == iri@,
            i <= prefixes.len(),
            first_match(p, iri@, 0) == first_match(p, iri@, i as int),
        decreases prefixes.len() - i,
    {
        assert(p[i as int] == (prefixes@[i as int].0@, prefixes@[i as int].1@));
        let namespace = chars_of(prefixes[i].1.as_str());
        if starts_with(&chars, &namespace) {
            if is_valid_local(&chars, alphanumeric, namespace.len()) {
                out.append(prefixes[i].0.as_str());
                out.append(":");
                out.append(iri.as_str().substring_char(namespace.len(), chars.len()));
                assert(out@ =~= old(out)@ + iri_text_with(p, iri@, alphanumeric@));
            } else {
                out.append("<");
                out.append(iri.as_str());
                out.append(">");
                assert(out@ =~= old(out)@ + iri_text_with(p, iri@, alphanumeric@));
            }
            return ;
        }
        i = i + 1;
    }
    out.append("<");
    out.append(iri.as_str());
    out.append(">");
    assert(out@ =~= old(out)@ + iri_text_with(p, iri@, alphanumeric@));
}

/// Writes a blank node: `_:` and its id.
pub fn write_blank_node(out: &mut String, blank_node: &BlankNode)
    ensures
        final(out)@ == old(out)@ + "_:"@ + blank_node@,
{
    out.append("_:");
    out.append(blank_node.id());
}

/// Writes a literal: its value in quotes, and its datatype or language where
/// it is not a plain string.
fn write_literal(out: &mut String, literal: &Literal, prefixes: &Vec<(String, Iri)>)
    ensures
        final(out)@ == old(out)@ + literal_text(bindings_of(prefixes@), literal@),
{
    let ghost p = bindings_of(prefixes@);
    match &literal.literal_tag {
        LiteralTag::Type(type_iri) => {
            let string_type = xsd::string();
            if type_iri.same_text(string_type.as_str()) {
                out.append("\"");
                out.append(literal.string.as_str());
                out.append("\"");
                assert(out@ =~= old(out)@ + literal_text(p, literal@));
            } else {
                out.append("\"");
                out.append(literal.string.as_str());
                out.append("\"^^");
                write_iri(out, type_iri, prefixes);
                assert(out@ =~= old(out)@ + literal_text(p, literal@));
            }
        },
        LiteralTag::LangTag(lang_tag) => {
            out.append("\"");
            out.append(literal.string.as_str());
            out.append("\"@");
            out.append(lang_tag.as_str());
            assert(out@ =~= old(out)@ + literal_text(p, literal@));
        },
    }
}

} // verus!
