use vstd::prelude::*;
use crate::model::graph::{bind_prefix, insert_triple, lookup_prefix, GraphView};
use crate::model::{EntityView, LiteralTagView, LiteralView, NodeView, TripleView};
use crate::read::event::{attribute_text, name_text, AttributeView, EventView, NameView};
use crate::text::decimal;
use crate::vocabs::{rdf, xml, xsd};

verus! {

/// What a `Frame` stands for. A property frame holds the tag of a literal to
/// come, and says whether an `rdf:resource` attribute has given the property
/// its value already.
pub enum FrameView {
    S { subject: EntityView },
    P { predicate: Seq<char>, literal_tag: Option<LiteralTagView>, satisfied: bool },
}

/// Whether resources and properties alternate in a stack of frames, from a
/// resource at the bottom.
pub open spec fn stack_wf(s: Seq<FrameView>) -> bool {
    forall|i: int| 0 <= i < s.len() ==> ((#[trigger] s[i]) is S <==> i % 2 == 0)
}

/// What a `State` stands for.
pub enum StateView {
    PreStart,
    Started,
    Rdf { stack: Seq<FrameView>, n_b_nodes: nat },
    PostRdf,
    PostEnd,
}

/// The number of blank nodes that a parse in this state has made.
pub open spec fn blank_nodes(st: StateView) -> nat {
    match st {
        StateView::Rdf { stack, n_b_nodes } => n_b_nodes,
        _ => 0,
    }
}

/// The graph `g` with one more triple.
pub open spec fn graph_with_triple(
    g: GraphView,
    subject: EntityView,
    predicate: Seq<char>,
    object: NodeView,
) -> GraphView {
    GraphView { triples: insert_triple(g.triples, TripleView { subject, predicate, object }), ..g }
}

/// Whether a name lies in the namespace `ns`.
pub open spec fn has_namespace(name: NameView, ns: Seq<char>) -> bool {
    name.namespace == Some(ns)
}

/// Whether a name is that of the root element, `RDF` in the RDF namespace.
pub open spec fn is_rdf_root(name: NameView) -> bool {
    name.local_name == "RDF"@ && has_namespace(name, rdf::namespace_text())
}

/// The value of the last of the first `n` attributes that has the local name
/// `local` in the namespace `ns`, if there is one.
pub open spec fn attribute_value_among(
    attributes: Seq<AttributeView>,
    local: Seq<char>,
    ns: Seq<char>,
    n: int,
) -> Option<Seq<char>>
    decreases n,
{
    if n <= 0 {
        None
    } else if attributes[n - 1].name.local_name == local && has_namespace(attributes[n - 1].name, ns) {
        Some(attributes[n - 1].value)
    } else {
        attribute_value_among(attributes, local, ns, n - 1)
    }
}

/// The value of the attribute with the local name `local` in the namespace
/// `ns`; of several, the last.
pub open spec fn attribute_value(attributes: Seq<AttributeView>, local: Seq<char>, ns: Seq<char>) -> Option<Seq<char>> {
    attribute_value_among(attributes, local, ns, attributes.len() as int)
}

/// The message for a tag without a namespace.
pub open spec fn no_namespace_message(name: NameView) -> Seq<char> {
    "No namespace for tag: "@ + name_text(name)
}

/// The message for a prefix that is used for one namespace and bound to another.
pub open spec fn prefix_conflict_message(prefix: Seq<char>, ns: Seq<char>, bound: Seq<char>) -> Seq<char> {
    "Prefix "@ + prefix + " used for "@ + ns + ", but already bound to "@ + bound
}

/// The message for a property element with both a language and a datatype.
pub open spec fn both_tags_message(name: NameView) -> Seq<char> {
    "Tag "@ + name_text(name) + " has both lang and datatype attributes"@
}

/// The message for a start tag that the phase does not accept.
pub open spec fn unexpected_start_tag_message(name: NameView) -> Seq<char> {
    "Unexpected start tag "@ + name_text(name)
}

/// The message for an end tag that the phase does not accept.
pub open spec fn unexpected_end_tag_message(name: NameView) -> Seq<char> {
    "Unexpected end tag "@ + name_text(name)
}

/// The message for character data where none can stand.
pub open spec fn unexpected_characters_message(text: Seq<char>) -> Seq<char> {
    "Unexpected characters "@ + text
}

/// The message for an attribute of the root element other than `xml:base`.
pub open spec fn unexpected_attribute_message(attribute: AttributeView) -> Seq<char> {
    "Unexpected attribute "@ + attribute_text(attribute)
}

/// The IRI that a tag names, and the graph after the tag's prefix was looked
/// up: an unbound prefix is bound to the tag's namespace; a prefix bound to
/// another namespace is an error, as is a tag without a namespace. The IRI is
/// the namespace followed by the local name.
pub open spec fn tag_iri(g: GraphView, name: NameView) -> Result<(GraphView, Seq<char>), Seq<char>> {
    match name.namespace {
        None => Err(no_namespace_message(name)),
        Some(ns) => {
            let prefix = match name.prefix {
                Some(p) => p,
                None => Seq::empty(),
            };
            match lookup_prefix(g.prefixes, prefix) {
                None => Ok(
                    (
                        GraphView { prefixes: bind_prefix(g.prefixes, prefix, ns), ..g },
                        ns + name.local_name,
                    ),
                ),
                Some(bound) => if bound == ns {
                    Ok((g, bound + name.local_name))
                } else {
                    Err(prefix_conflict_message(prefix, ns, bound))
                },
            }
        },
    }
}

/// The id of the blank node that is made when `n` were made before.
pub open spec fn blank_node_id(n: nat) -> Seq<char> {
    "node"@ + decimal(n)
}

/// The subject of a resource frame.
pub open spec fn frame_subject(frame: FrameView) -> EntityView {
    match frame {
        FrameView::S { subject } => subject,
        FrameView::P { predicate, literal_tag, satisfied } => arbitrary(),
    }
}

/// The predicate of a property frame.
pub open spec fn frame_predicate(frame: FrameView) -> Seq<char> {
    match frame {
        FrameView::S { subject } => arbitrary(),
        FrameView::P { predicate, literal_tag, satisfied } => predicate,
    }
}

/// The tag that a property frame holds for a literal to come.
pub open spec fn frame_tag(frame: FrameView) -> Option<LiteralTagView> {
    match frame {
        FrameView::S { subject } => None,
        FrameView::P { predicate, literal_tag, satisfied } => literal_tag,
    }
}

/// Whether a property frame has its value from an `rdf:resource` attribute.
pub open spec fn frame_satisfied(frame: FrameView) -> bool {
    match frame {
        FrameView::S { subject } => false,
        FrameView::P { predicate, literal_tag, satisfied } => satisfied,
    }
}

/// A start tag under a resource: the tag names a predicate. With an
/// `rdf:resource` attribute the triple is there at once and the property is
/// satisfied; else `rdf:lang` or `rdf:datatype`, never both, give the tag of a
/// literal to come.
pub open spec fn open_property(
    g: GraphView,
    stack: Seq<FrameView>,
    name: NameView,
    attributes: Seq<AttributeView>,
) -> Result<(GraphView, Seq<FrameView>), Seq<char>> {
    let subject = frame_subject(stack.last());
    match tag_iri(g, name) {
        Err(message) => Err(message),
        Ok((g1, predicate)) => match attribute_value(attributes, "resource"@, rdf::namespace_text()) {
            Some(object) => Ok(
                (
                    graph_with_triple(
                        g1,
                        subject,
                        predicate,
                        NodeView::Entity(EntityView::Iri(object)),
                    ),
                    stack.push(FrameView::P { predicate, literal_tag: None, satisfied: true }),
                ),
            ),
            None => {
                let lang = attribute_value(attributes, "lang"@, rdf::namespace_text());
                let datatype = attribute_value(attributes, "datatype"@, rdf::namespace_text());
                if lang is Some && datatype is Some {
                    Err(both_tags_message(name))
                } else {
                    let literal_tag = if lang is Some {
                        Some(LiteralTagView::LangTag(lang->0))
                    } else if datatype is Some {
                        Some(LiteralTagView::Type(datatype->0))
                    } else {
                        None
                    };
                    Ok((g1, stack.push(FrameView::P { predicate, literal_tag, satisfied: false })))
                }
            },
        },
    }
}

/// A start tag under a property, or under the root: the tag names the class of
/// a resource, which is what `rdf:about` says or else a new blank node. The
/// resource gets its class and, under a property, is linked to the resource
/// around it, as the subject of that link.
pub open spec fn open_resource(
    g: GraphView,
    stack: Seq<FrameView>,
    n: nat,
    name: NameView,
    attributes: Seq<AttributeView>,
) -> Result<(GraphView, Seq<FrameView>, nat), Seq<char>> {
    match tag_iri(g, name) {
        Err(message) => Err(message),
        Ok((g1, class)) => {
            let about = attribute_value(attributes, "about"@, rdf::namespace_text());
            let entity = match about {
                Some(iri) => EntityView::Iri(iri),
                None => EntityView::BlankNode(blank_node_id(n)),
            };
            let m = if about is Some {
                n
            } else {
                n + 1
            };
            let g2 = graph_with_triple(
                g1,
                entity,
                rdf::type_text(),
                NodeView::Entity(EntityView::Iri(class)),
            );
            let g3 = if stack.len() >= 2 {
                graph_with_triple(
                    g2,
                    entity,
                    frame_predicate(stack.last()),
                    NodeView::Entity(frame_subject(stack[stack.len() - 2])),
                )
            } else {
                g2
            };
            Ok((g3, stack.push(FrameView::S { subject: entity }), m))
        },
    }
}

/// The graph that a start tag inside the root element leaves behind where it
/// is an error: the graph before it, but that the tag's prefix is bound where
/// the tag itself was accepted. The triples stay.
pub open spec fn graph_after_failed_tag(g: GraphView, name: NameView) -> GraphView {
    match tag_iri(g, name) {
        Ok((g1, iri)) => g1,
        Err(message) => g,
    }
}

/// A start tag inside the root element.
pub open spec fn start_tag(
    g: GraphView,
    stack: Seq<FrameView>,
    n: nat,
    name: NameView,
    attributes: Seq<AttributeView>,
) -> Result<(GraphView, Seq<FrameView>, nat), Seq<char>> {
    if stack.len() > 0 && stack.last() is S {
        match open_property(g, stack, name, attributes) {
            Ok((g1, s1)) => Ok((g1, s1, n)),
            Err(message) => Err(message),
        }
    } else {
        open_resource(g, stack, n, name, attributes)
    }
}

/// The stack without its innermost frame; none to take off is an error.
pub open spec fn popped(stack: Seq<FrameView>) -> Result<Seq<FrameView>, Seq<char>> {
    if stack.len() == 0 {
        Err("Stack is empty"@)
    } else {
        Ok(stack.drop_last())
    }
}

/// Character data: under a property that `rdf:resource` has not satisfied it
/// is the value of a literal, tagged as the property's attributes said or else
/// as a string; the property then holds no tag any more. Anywhere else it is
/// an error.
pub open spec fn characters(g: GraphView, st: StateView, text: Seq<char>) -> Result<(GraphView, StateView), Seq<char>> {
    match st {
        StateView::Rdf { stack, n_b_nodes } => if stack.len() >= 2 && stack.last() is P
            && !frame_satisfied(stack.last()) {
            let predicate = frame_predicate(stack.last());
            let literal_tag = match frame_tag(stack.last()) {
                Some(tag) => tag,
                None => LiteralTagView::Type(xsd::string_text()),
            };
            Ok(
                (
                    graph_with_triple(
                        g,
                        frame_subject(stack[stack.len() - 2]),
                        predicate,
                        NodeView::Literal(LiteralView { string: text, literal_tag }),
                    ),
                    StateView::Rdf {
                        stack: stack.drop_last().push(
                            FrameView::P { predicate, literal_tag: None, satisfied: false },
                        ),
                        n_b_nodes,
                    },
                ),
            )
        } else {
            Err(unexpected_characters_message(text))
        },
        _ => Err(unexpected_characters_message(text)),
    }
}

/// The prefix table after the first `n` namespace declarations were bound, in
/// their order.
pub open spec fn bind_all(
    p: Seq<(Seq<char>, Seq<char>)>,
    mappings: Seq<(Seq<char>, Seq<char>)>,
    n: int,
) -> Seq<(Seq<char>, Seq<char>)>
    decreases n,
{
    if n <= 0 {
        p
    } else {
        bind_prefix(bind_all(p, mappings, n - 1), mappings[n - 1].0, mappings[n - 1].1)
    }
}

/// The default namespace after the first `n` attributes of the root element:
/// each `xml:base` sets it, and any other attribute is an error.
pub open spec fn top_level_attributes(
    default_ns: Option<Seq<char>>,
    attributes: Seq<AttributeView>,
    n: int,
) -> Result<Option<Seq<char>>, Seq<char>>
    decreases n,
{
    if n <= 0 {
        Ok(default_ns)
    } else {
        match top_level_attributes(default_ns, attributes, n - 1) {
            Err(message) => Err(message),
            Ok(d) => if attributes[n - 1].name.local_name == "base"@ && has_namespace(
                attributes[n - 1].name,
                xml::namespace_text(),
            ) {
                Ok(Some(attributes[n - 1].value))
            } else {
                Err(unexpected_attribute_message(attributes[n - 1]))
            },
        }
    }
}

/// The default namespace that the first `n` attributes of the root element
/// leave behind: what the attributes before the first error have set.
pub open spec fn base_until_error(
    default_ns: Option<Seq<char>>,
    attributes: Seq<AttributeView>,
    n: int,
) -> Option<Seq<char>>
    decreases n,
{
    if n <= 0 {
        default_ns
    } else {
        match top_level_attributes(default_ns, attributes, n - 1) {
            Err(message) => base_until_error(default_ns, attributes, n - 1),
            Ok(d) => if attributes[n - 1].name.local_name == "base"@ && has_namespace(
                attributes[n - 1].name,
                xml::namespace_text(),
            ) {
                Some(attributes[n - 1].value)
            } else {
                d
            },
        }
    }
}

/// The graph that a first start tag leaves behind where it is an error:
/// another element than the root changes nothing; the root element with a
/// wrong attribute has bound its declarations, and set the default namespace
/// as far as the attributes before the wrong one say. The triples stay.
pub open spec fn graph_after_failed_root(
    g: GraphView,
    name: NameView,
    attributes: Seq<AttributeView>,
    mappings: Seq<(Seq<char>, Seq<char>)>,
) -> GraphView {
    if is_rdf_root(name) {
        GraphView {
            default_ns: base_until_error(g.default_ns, attributes, attributes.len() as int),
            prefixes: bind_all(g.prefixes, mappings, mappings.len() as int),
            triples: g.triples,
        }
    } else {
        g
    }
}

/// The first start tag of a document: it must be the root element, whose
/// namespace declarations are all bound and whose attributes can only be
/// `xml:base`.
pub open spec fn root_start(
    g: GraphView,
    name: NameView,
    attributes: Seq<AttributeView>,
    mappings: Seq<(Seq<char>, Seq<char>)>,
) -> Result<(GraphView, StateView), Seq<char>> {
    if is_rdf_root(name) {
        match top_level_attributes(g.default_ns, attributes, attributes.len() as int) {
            Err(message) => Err(message),
            Ok(default_ns) => Ok(
                (
                    GraphView {
                        default_ns,
                        prefixes: bind_all(g.prefixes, mappings, mappings.len() as int),
                        triples: g.triples,
                    },
                    StateView::Rdf { stack: Seq::empty(), n_b_nodes: 0 },
                ),
            ),
        }
    } else {
        Err("Unexpected start element"@)
    }
}

/// An end tag: inside the root element it closes the innermost open element,
/// or the root element itself where none is open.
pub open spec fn end_tag(st: StateView, name: NameView) -> Result<StateView, Seq<char>> {
    match st {
        StateView::Rdf { stack, n_b_nodes } => if stack.len() == 0 {
            if is_rdf_root(name) {
                Ok(StateView::PostRdf)
            } else {
                Err(unexpected_end_tag_message(name))
            }
        } else {
            Ok(StateView::Rdf { stack: stack.drop_last(), n_b_nodes })
        },
        _ => Err(unexpected_end_tag_message(name)),
    }
}

/// What one event does to the graph and the state of a parse, or the message
/// of the error that it is.
pub open spec fn step_spec(g: GraphView, st: StateView, event: EventView) -> Result<(GraphView, StateView), Seq<char>> {
    match event {
        EventView::StartDocument => if st is PreStart {
            Ok((g, StateView::Started))
        } else {
            Err("Unexpected document start"@)
        },
        EventView::EndDocument => if st is PostRdf {
            Ok((g, StateView::PostEnd))
        } else {
            Err("Unexpected end of document"@)
        },
        EventView::ProcessingInstruction => Ok((g, st)),
        EventView::Comment => Ok((g, st)),
        EventView::Whitespace => Ok((g, st)),
        EventView::StartElement { name, attributes, namespace } => match st {
            StateView::Started => root_start(g, name, attributes, namespace),
            StateView::Rdf { stack, n_b_nodes } => match start_tag(
                g,
                stack,
                n_b_nodes,
                name,
                attributes,
            ) {
                Ok((g1, s1, m)) => Ok((g1, StateView::Rdf { stack: s1, n_b_nodes: m })),
                Err(message) => Err(message),
            },
            _ => Err(unexpected_start_tag_message(name)),
        },
        EventView::EndElement { name } => match end_tag(st, name) {
            Ok(st1) => Ok((g, st1)),
            Err(message) => Err(message),
        },
        EventView::CData(text) => characters(g, st, text),
        EventView::Characters(text) => characters(g, st, text),
    }
}

/// The graph and the state after the first `n` events, from a graph and a
/// state; the first error ends the parse.
pub open spec fn run(g: GraphView, st: StateView, events: Seq<EventView>, n: int) -> Result<(GraphView, StateView), Seq<char>>
    decreases n,
{
    if n <= 0 {
        Ok((g, st))
    } else {
        match run(g, st, events, n - 1) {
            Err(message) => Err(message),
            Ok((g1, st1)) => step_spec(g1, st1, events[n - 1]),
        }
    }
}

} // verus!
