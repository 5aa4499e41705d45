use vstd::prelude::*;
use vstd::string::StringExecFns;
use crate::error::PenyuError;
use crate::model::graph::{GraphView, MemoryGraph};
use crate::model::iri::Iri;
use crate::model::literal::{Literal, LiteralTag};
use crate::model::node::{BlankNode, Entity, Node};
use crate::model::LiteralTagView;
use crate::read::event::{
    attributes_of, events_of, mappings_of, optional_string, Attribute, Name, XmlEvent,
};
use crate::read::laws::{lemma_base_until_error, lemma_run_error, lemma_top_level_error};
use crate::read::machine::{
    attribute_value, attribute_value_among, base_until_error, bind_all, blank_nodes, characters,
    graph_after_failed_root, graph_after_failed_tag, has_namespace, is_rdf_root, popped,
    root_start, run, stack_wf,
    start_tag, step_spec, tag_iri, top_level_attributes, unexpected_end_tag_message, FrameView,
    StateView,
};
use crate::text::{decimal_text, text_equals};
use crate::vocabs::{rdf, xml, xsd};

verus! {

/// One open element of the document: a resource (`S`), whose children are its
/// properties, or a property (`P`), whose child or text is its value. A
/// property is satisfied where an `rdf:resource` attribute gave its value.
pub enum Frame {
    S { subject: Entity },
    P { predicate: Iri, literal_tag: Option<LiteralTag>, satisfied: bool },
}

/// The view of an optional literal tag.
pub open spec fn optional_tag(tag: Option<LiteralTag>) -> Option<LiteralTagView> {
    match tag {
        Some(t) => Some(t@),
        None => None,
    }
}

impl View for Frame {
    type V = FrameView;

    open spec fn view(&self) -> FrameView {
        match self {
            Frame::S { subject } => FrameView::S { subject: subject@ },
            Frame::P { predicate, literal_tag, satisfied } => FrameView::P {
                predicate: predicate@,
                literal_tag: optional_tag(*literal_tag),
                satisfied: *satisfied,
            },
        }
    }
}

/// The views of a vector of frames, one for one.
pub open spec fn frames_of(v: Seq<Frame>) -> Seq<FrameView> {
    Seq::new(v.len(), |i: int| v[i]@)
}

/// The open elements below the root, the innermost last.
pub struct Stack {
    frames: Vec<Frame>,
}

impl View for Stack {
    type V = Seq<FrameView>;

    closed spec fn view(&self) -> Seq<FrameView> {
        frames_of(self.frames@)
    }
}

/// The phase of a parse.
pub enum State {
    PreStart,
    Started,
    Rdf { stack: Stack, n_b_nodes: usize },
    PostRdf,
    PostEnd,
}

impl View for State {
    type V = StateView;

    open spec fn view(&self) -> StateView {
        match self {
            State::PreStart => StateView::PreStart,
            State::Started => StateView::Started,
            State::Rdf { stack, n_b_nodes } => StateView::Rdf {
                stack: stack@,
                n_b_nodes: *n_b_nodes as nat,
            },
            State::PostRdf => StateView::PostRdf,
            State::PostEnd => StateView::PostEnd,
        }
    }
}

/// Whether `error` is the error with the message `message` and no cause.
pub open spec fn failure(error: PenyuError, message: Seq<char>) -> bool {
    error.message_text() == message && !error.has_source()
}

/// The error with the given message and no cause.
fn failed<T>(message: String) -> (r: Result<T, PenyuError>)
    ensures
        r is Err,
        failure(r->Err_0, message@),
{
    Err(PenyuError::new(message, None))
}

/// Two texts, one after the other.
fn joined(a: &str, b: &str) -> (r: String)
    ensures
        r@ == a@ + b@,
{
    String::from_str(a).concat(b)
}

impl Stack {
    #[verifier::type_invariant]
    spec fn alternating(&self) -> bool {
        stack_wf(frames_of(self.frames@))
    }

    /// Whether resources and properties alternate in this stack, from a
    /// resource at the bottom. Every stack that a program holds is so.
    pub open spec fn wf(&self) -> bool {
        stack_wf(self@)
    }

    /// Recalls that this stack is well formed, as every stack is.
    pub fn ensure_wf(&self)
        ensures
            self.wf(),
    {
        proof {
            use_type_invariant(self);
        }
    }

    /// The stack with no open element.
    pub fn new() -> (r: Stack)
        ensures
            r@ == Seq::<FrameView>::empty(),
            r.wf(),
    {
        let r = Stack { frames: Vec::new() };
        assert(r@ =~= Seq::<FrameView>::empty());
        r
    }

    /// Whether no element is open.
    pub fn is_empty(&self) -> (r: bool)
        ensures
            r == (self@.len() == 0),
    {
        self.frames.len() == 0
    }

    /// The number of open elements.
    pub fn depth(&self) -> (r: usize)
        ensures
            r == self@.len(),
    {
        self.frames.len()
    }

    /// Closes the innermost open element; with none open that is an error.
    pub fn pop(self) -> (r: Result<Stack, PenyuError>)
        ensures
            match popped(self@) {
                Ok(rest) => r is Ok && r->Ok_0@ == rest && r->Ok_0.wf(),
                Err(message) => r is Err && failure(r->Err_0, message),
            },
    {
        proof {
            use_type_invariant(&self);
        }
        let ghost before = self@;
        let mut frames = self.frames;
        if frames.len() == 0 {
            failed(String::from_str("Stack is empty"))
        } else {
            frames.pop();
            assert(frames_of(frames@) =~= before.drop_last());
            assert forall|i: int| 0 <= i < frames@.len() implies ((#[trigger] frames_of(frames@)[i]) is S
                <==> i % 2 == 0) by {
                assert(frames_of(frames@)[i] == before[i]);
            }
            Ok(Stack { frames })
        }
    }

    /// Opens one more element, innermost.
    fn push(self, frame: Frame) -> (r: Stack)
        requires
            frame@ is S <==> self@.len() % 2 == 0,
        ensures
            r@ == self@.push(frame@),
            r.wf(),
    {
        proof {
            use_type_invariant(&self);
        }
        let ghost before = self@;
        let mut frames = self.frames;
        frames.push(frame);
        assert(frames_of(frames@) =~= before.push(frame@));
        assert forall|i: int| 0 <= i < frames@.len() implies ((#[trigger] frames_of(frames@)[i]) is S
            <==> i % 2 == 0) by {
            if i < before.len() {
                assert(frames_of(frames@)[i] == before[i]);
            }
        }
        Stack { frames }
    }

    /// A frame of the view is the view of the frame at the same place.
    proof fn lemma_frame(&self, i: int)
        requires
            0 <= i < self@.len(),
        ensures
            self@[i] == self.frames@[i]@,
            self@.len() == self.frames@.len(),
    {
    }
}

/// Whether a name is that of the root element, `RDF` in the RDF namespace.
pub fn tag_is_rdf_rdf(tag: &Name) -> (r: bool)
    ensures
        r == is_rdf_root(tag@),
{
    text_equals(tag.local_name.as_str(), "RDF") && has_ns(tag, &rdf::namespace())
}

/// Whether a name lies in the namespace `ns`.
fn has_ns(tag: &Name, ns: &Iri) -> (r: bool)
    ensures
        r == has_namespace(tag@, ns@),
{
    match &tag.namespace {
        Some(s) => ns.same_text(s.as_str()),
        None => false,
    }
}

/// The value of the attribute with the given local name and namespace; of
/// several, the last.
fn string_from_attribute(attributes: &Vec<Attribute>, attribute_name: &str, attribute_ns: &Iri) -> (r:
    Option<String>)
    ensures
        optional_string(r) == attribute_value(
            attributes_of(attributes@),
            attribute_name@,
            attribute_ns@,
        ),
{
    let mut value: Option<String> = None;
    let mut i: usize = 0;
    while i < attributes.len()
        invariant
            i <= attributes.len(),
            optional_string(value) == attribute_value_among(
                attributes_of(attributes@),
                attribute_name@,
                attribute_ns@,
                i as int,
            ),
        decreases attributes.len() - i,
    {
        let attribute = &attributes[i];
        assert(attributes_of(attributes@)[i as int] == attribute@);
        if text_equals(attribute.name.local_name.as_str(), attribute_name) && has_ns(
            &attribute.name,
            attribute_ns,
        ) {
            value = Some(attribute.value.clone());
        }
        i = i + 1;
    }
    value
}

/// The IRI that the attribute with the given local name and namespace holds.
fn iri_from_attribute(attributes: &Vec<Attribute>, attribute_name: &str, attribute_ns: &Iri) -> (r:
    Option<Iri>)
    ensures
        crate::model::graph::optional_text(r) == attribute_value(
            attributes_of(attributes@),
            attribute_name@,
            attribute_ns@,
        ),
{
    match string_from_attribute(attributes, attribute_name, attribute_ns) {
        Some(value) => Some(Iri::new(value)),
        None => None,
    }
}

/// The IRI that a tag names. The tag's prefix is looked up in the graph's prefix
/// table: an unbound prefix is bound to the tag's namespace, and one bound to
/// another namespace is an error, which leaves the graph as it was.
fn iri_from_tag(name: &Name, graph: &mut MemoryGraph) -> (r: Result<Iri, PenyuError>)
    ensures
        match tag_iri(old(graph)@, name@) {
            Ok((g, iri)) => r is Ok && r->Ok_0@ == iri && final(graph)@ == g,
            Err(message) => r is Err && failure(r->Err_0, message) && final(graph)@ == old(
                graph,
            )@,
        },
{
    match &name.namespace {
        None => {
            let text = name.to_text();
            failed(joined("No namespace for tag: ", text.as_str()))
        },
        Some(ns) => {
            let prefix: String = match &name.prefix {
                Some(p) => p.clone(),
                None => String::new(),
            };
            match graph.find_prefix(prefix.as_str()) {
                None => {
                    let ns_iri = Iri::new(ns.clone());
                    let iri = ns_iri.join(name.local_name.clone());
                    graph.add_prefix(prefix, ns_iri);
                    Ok(iri)
                },
                Some(ns_iri) => {
                    if !ns_iri.same_text(ns.as_str()) {
                        let mut message = joined("Prefix ", prefix.as_str());
                        message.append(" used for ");
                        message.append(ns.as_str());
                        message.append(", but already bound to ");
                        message.append(ns_iri.as_str());
                        failed(message)
                    } else {
                        Ok(ns_iri.join(name.local_name.clone()))
                    }
                },
            }
        },
    }
}

/// Takes a start tag inside the root element: under a resource it opens a
/// property, under a property or the root it opens a resource. An error adds
/// no triple and makes no blank node.
fn parse_rdf(
    stack: Stack,
    name: &Name,
    attributes: &Vec<Attribute>,
    graph: &mut MemoryGraph,
    n_b_nodes: &mut usize,
) -> (r: Result<Stack, PenyuError>)
    requires
        *old(n_b_nodes) < usize::MAX,
    ensures
        match start_tag(
            old(graph)@,
            stack@,
            *old(n_b_nodes) as nat,
            name@,
            attributes_of(attributes@),
        ) {
            Ok((g, s, m)) => r is Ok && final(graph)@ == g && r->Ok_0@ == s && *final(n_b_nodes)
                == m,
            Err(message) => r is Err && failure(r->Err_0, message) && final(graph)@
                == graph_after_failed_tag(old(graph)@, name@) && final(graph)@.triples == old(
                graph,
            )@.triples && *final(n_b_nodes) == *old(n_b_nodes),
        },
{
    proof {
        use_type_invariant(&stack);
    }
    let depth = stack.frames.len();
    let rdf_ns = rdf::namespace();
    if depth % 2 == 1 {
        proof {
            stack.lemma_frame(depth - 1);
        }
        let subject = match &stack.frames[depth - 1] {
            Frame::S { subject } => subject.clone(),
            Frame::P { predicate, literal_tag, satisfied } => vstd::pervasive::unreached(),
        };
        let predicate = match iri_from_tag(name, graph) {
            Ok(iri) => iri,
            Err(e) => {
                return Err(e);
            },
        };
        let object = iri_from_attribute(attributes, "resource", &rdf_ns);
        let satisfied = object.is_some();
        let literal_tag: Option<LiteralTag> = match object {
            Some(iri) => {
                graph.add(subject, predicate.clone(), Node::Entity(Entity::Iri(iri)));
                None
            },
            None => {
                let lang_tag = string_from_attribute(attributes, "lang", &rdf_ns);
                let datatype = iri_from_attribute(attributes, "datatype", &rdf_ns);
                match lang_tag {
                    Some(lang) => match datatype {
                        Some(_) => {
                            let text = name.to_text();
                            let mut message = joined("Tag ", text.as_str());
                            message.append(" has both lang and datatype attributes");
                            return failed(message);
                        },
                        None => Some(LiteralTag::LangTag(lang)),
                    },
                    None => match datatype {
                        Some(datatype) => Some(LiteralTag::Type(datatype)),
                        None => None,
                    },
                }
            },
        };
        Ok(stack.push(Frame::P { predicate, literal_tag, satisfied }))
    } else {
        let class = match iri_from_tag(name, graph) {
            Ok(iri) => iri,
            Err(e) => {
                return Err(e);
            },
        };
        let id = iri_from_attribute(attributes, "about", &rdf_ns);
        let entity = match id {
            Some(iri) => Entity::Iri(iri),
            None => {
                let number = decimal_text(*n_b_nodes);
                let b_node_id = joined("node", number.as_str());
                *n_b_nodes = *n_b_nodes + 1;
                Entity::BlankNode(BlankNode::new(b_node_id))
            },
        };
        graph.add(entity.clone(), rdf::type_iri(), Node::Entity(Entity::Iri(class)));
        if depth >= 2 {
            proof {
                stack.lemma_frame(depth - 1);
                stack.lemma_frame(depth - 2);
            }
            match &stack.frames[depth - 1] {
                Frame::P { predicate, literal_tag, satisfied } => match &stack.frames[depth - 2] {
                    Frame::S { subject } => {
                        graph.add(entity.clone(), predicate.clone(), Node::Entity(subject.clone()));
                    },
                    Frame::P { predicate, literal_tag, satisfied } => vstd::pervasive::unreached(),
                },
                Frame::S { subject } => vstd::pervasive::unreached(),
            }
        }
        Ok(stack.push(Frame::S { subject: entity }))
    }
}

/// Takes character data: under a property that `rdf:resource` has not
/// satisfied it is the value of a literal of the property's subject; anywhere
/// else it is an error, and the graph stays as it was.
fn handle_characters(graph: &mut MemoryGraph, state: State, string: &String) -> (r: Result<
    State,
    PenyuError,
>)
    ensures
        match characters(old(graph)@, state@, string@) {
            Ok((g, st)) => r is Ok && final(graph)@ == g && r->Ok_0@ == st,
            Err(message) => r is Err && failure(r->Err_0, message) && final(graph)@ == old(
                graph,
            )@,
        },
{
    match state {
        State::Rdf { stack, n_b_nodes } => {
            proof {
                use_type_invariant(&stack);
            }
            let depth = stack.frames.len();
            if depth >= 2 && depth % 2 == 0 {
                proof {
                    stack.lemma_frame(depth - 1);
                    stack.lemma_frame(depth - 2);
                }
                let pending = match &stack.frames[depth - 1] {
                    Frame::P { predicate, literal_tag, satisfied } => !*satisfied,
                    Frame::S { subject } => vstd::pervasive::unreached(),
                };
                if !pending {
                    return failed(joined("Unexpected characters ", string.as_str()));
                }
                let subject = match &stack.frames[depth - 2] {
                    Frame::S { subject } => subject.clone(),
                    Frame::P { predicate, literal_tag, satisfied } => vstd::pervasive::unreached(),
                };
                let ghost before = stack@;
                let mut frames = stack.frames;
                let top = frames.pop();
                assert(frames_of(frames@) =~= before.drop_last());
                assert forall|i: int| 0 <= i < frames@.len() implies ((#[trigger] frames_of(frames@)[i]) is S
                    <==> i % 2 == 0) by {
                    assert(frames_of(frames@)[i] == before[i]);
                }
                let stack = Stack { frames };
                match top {
                    Some(Frame::P { predicate, literal_tag, satisfied }) => {
                        let literal_tag = match literal_tag {
                            Some(tag) => tag,
                            None => LiteralTag::Type(xsd::string()),
                        };
                        let literal = Literal::new(string.clone(), literal_tag);
                        graph.add(subject, predicate.clone(), Node::Literal(literal));
                        let stack = stack.push(
                            Frame::P { predicate, literal_tag: None, satisfied: false },
                        );
                        Ok(State::Rdf { stack, n_b_nodes })
                    },
                    _ => vstd::pervasive::unreached(),
                }
            } else {
                proof {
                    if depth > 0 {
                        stack.lemma_frame(depth - 1);
                    }
                }
                failed(joined("Unexpected characters ", string.as_str()))
            }
        },
        _ => failed(joined("Unexpected characters ", string.as_str())),
    }
}

/// The error for an end tag where none can stand.
fn err_unexpected_end_tag<T>(name: &Name) -> (r: Result<T, PenyuError>)
    ensures
        r is Err,
        failure(r->Err_0, unexpected_end_tag_message(name@)),
{
    let text = name.to_text();
    failed(joined("Unexpected end tag ", text.as_str()))
}

/// Takes the attributes of the root element: `xml:base` sets the default
/// namespace, and any other attribute is an error, which leaves the prefix
/// table and the triples as they were.
fn parse_attributes_top_level(graph: &mut MemoryGraph, attributes: &Vec<Attribute>) -> (r: Result<
    (),
    PenyuError,
>)
    ensures
        match top_level_attributes(
            old(graph)@.default_ns,
            attributes_of(attributes@),
            attributes@.len() as int,
        ) {
            Ok(default_ns) => r is Ok && final(graph)@ == (GraphView { default_ns, ..old(graph)@ }),
            Err(message) => r is Err && failure(r->Err_0, message) && final(graph)@ == (GraphView {
                default_ns: base_until_error(
                    old(graph)@.default_ns,
                    attributes_of(attributes@),
                    attributes@.len() as int,
                ),
                ..old(graph)@
            }),
        },
{
    let xml_ns = xml::namespace();
    let mut i: usize = 0;
    while i < attributes.len()
        invariant
            i <= attributes.len(),
            xml_ns@ == xml::namespace_text(),
            top_level_attributes(old(graph)@.default_ns, attributes_of(attributes@), i as int) is Ok,
            graph@ == (GraphView {
                default_ns: top_level_attributes(
                    old(graph)@.default_ns,
                    attributes_of(attributes@),
                    i as int,
                )->Ok_0,
                ..old(graph)@
            }),
        decreases attributes.len() - i,
    {
        let attribute = &attributes[i];
        assert(attributes_of(attributes@)[i as int] == attribute@);
        if text_equals(attribute.name.local_name.as_str(), "base") && has_ns(&attribute.name, &xml_ns) {
            graph.set_default_ns(Iri::new(attribute.value.clone()));
        } else {
            let text = attribute.to_text();
            proof {
                lemma_top_level_error(
                    old(graph)@.default_ns,
                    attributes_of(attributes@),
                    i as int + 1,
                    attributes@.len() as int,
                );
                lemma_base_until_error(
                    old(graph)@.default_ns,
                    attributes_of(attributes@),
                    i as int,
                    attributes@.len() as int,
                );
            }
            return failed(joined("Unexpected attribute ", text.as_str()));
        }
        i = i + 1;
    }
    Ok(())
}

/// Takes the first start tag of a document, which must be the root element:
/// binds its namespace declarations and takes its attributes.
fn parse_rdf_start(
    graph: &mut MemoryGraph,
    name: &Name,
    attributes: &Vec<Attribute>,
    namespace: &Vec<(String, String)>,
) -> (r: Result<State, PenyuError>)
    ensures
        match root_start(old(graph)@, name@, attributes_of(attributes@), mappings_of(namespace@)) {
            Ok((g, st)) => r is Ok && final(graph)@ == g && r->Ok_0@ == st,
            Err(message) => r is Err && failure(r->Err_0, message) && final(graph)@
                == graph_after_failed_root(
                old(graph)@,
                name@,
                attributes_of(attributes@),
                mappings_of(namespace@),
            ),
        },
{
    if tag_is_rdf_rdf(name) {
        let mut i: usize = 0;
        while i < namespace.len()
            invariant
                i <= namespace.len(),
                    graph@ == (GraphView {
                    prefixes: bind_all(old(graph)@.prefixes, mappings_of(namespace@), i as int),
                    ..old(graph)@
                }),
            decreases namespace.len() - i,
        {
            let prefix = namespace[i].0.clone();
            let ns_iri = Iri::new(namespace[i].1.clone());
            assert(mappings_of(namespace@)[i as int] == (prefix@, ns_iri@));
            graph.add_prefix(prefix, ns_iri);
            i = i + 1;
        }
        match parse_attributes_top_level(graph, attributes) {
            Ok(()) => Ok(State::Rdf { stack: Stack::new(), n_b_nodes: 0 }),
            Err(e) => Err(e),
        }
    } else {
        failed(String::from_str("Unexpected start element"))
    }
}

/// Takes one event of a document: the graph and the state after it, or the
/// error that it is. An error ends the parse, and the graph is gone with it.
pub fn step(graph: MemoryGraph, state: State, event: &XmlEvent) -> (r: Result<
    (MemoryGraph, State),
    PenyuError,
>)
    requires
        blank_nodes(state@) < usize::MAX,
    ensures
        match step_spec(graph@, state@, event@) {
            Ok((g, st)) => r is Ok && r->Ok_0.0@ == g && r->Ok_0.1@ == st && blank_nodes(st)
                <= blank_nodes(state@) + 1,
            Err(message) => r is Err && failure(r->Err_0, message),
        },
{
    let mut graph = graph;
    match event {
        XmlEvent::StartDocument => match state {
            State::PreStart => Ok((graph, State::Started)),
            _ => failed(String::from_str("Unexpected document start")),
        },
        XmlEvent::ProcessingInstruction => Ok((graph, state)),
        XmlEvent::StartElement { name, attributes, namespace } => match state {
            State::Started => match parse_rdf_start(&mut graph, name, attributes, namespace) {
                Ok(next) => Ok((graph, next)),
                Err(e) => Err(e),
            },
            State::Rdf { stack, n_b_nodes } => {
                let mut n_b_nodes = n_b_nodes;
                match parse_rdf(stack, name, attributes, &mut graph, &mut n_b_nodes) {
                    Ok(stack) => Ok((graph, State::Rdf { stack, n_b_nodes })),
                    Err(e) => Err(e),
                }
            },
            _ => {
                let text = name.to_text();
                failed(joined("Unexpected start tag ", text.as_str()))
            },
        },
        XmlEvent::EndElement { name } => match state {
            State::Rdf { stack, n_b_nodes } => {
                if stack.is_empty() {
                    if tag_is_rdf_rdf(name) {
                        Ok((graph, State::PostRdf))
                    } else {
                        err_unexpected_end_tag(name)
                    }
                } else {
                    match stack.pop() {
                        Ok(stack) => Ok((graph, State::Rdf { stack, n_b_nodes })),
                        Err(e) => Err(e),
                    }
                }
            },
            _ => err_unexpected_end_tag(name),
        },
        XmlEvent::CData(string) => match handle_characters(&mut graph, state, string) {
            Ok(next) => Ok((graph, next)),
            Err(e) => Err(e),
        },
        XmlEvent::Comment => Ok((graph, state)),
        XmlEvent::Characters(string) => match handle_characters(&mut graph, state, string) {
            Ok(next) => Ok((graph, next)),
            Err(e) => Err(e),
        },
        XmlEvent::Whitespace => Ok((graph, state)),
        XmlEvent::EndDocument => match state {
            State::PostRdf => Ok((graph, State::PostEnd)),
            _ => failed(String::from_str("Unexpected end of document")),
        },
    }
}

/// Reads a document, given as its events in order, into a graph. The first
/// event that the state of the parse does not accept ends it with an error.
pub fn read(events: &Vec<XmlEvent>) -> (r: Result<MemoryGraph, PenyuError>)
    ensures
        match run(
            GraphView { default_ns: None, prefixes: Seq::empty(), triples: Seq::empty() },
            StateView::PreStart,
            events_of(events@),
            events@.len() as int,
        ) {
            Ok((g, st)) => r is Ok && r->Ok_0@ == g && r->Ok_0.wf(),
            Err(message) => r is Err && failure(r->Err_0, message),
        },
{
    let ghost start = GraphView { default_ns: None, prefixes: Seq::empty(), triples: Seq::empty() };
    let mut graph = MemoryGraph::new();
    let mut state = State::PreStart;
    let mut i: usize = 0;
    while i < events.len()
        invariant
            i <= events.len(),
            start == (GraphView { default_ns: None, prefixes: Seq::empty(), triples: Seq::empty() }),
            blank_nodes(state@) <= i,
            run(start, StateView::PreStart, events_of(events@), i as int) == Ok::<
                (GraphView, StateView),
                Seq<char>,
            >((graph@, state@)),
        decreases events.len() - i,
    {
        assert(events_of(events@)[i as int] == events@[i as int]@);
        assert(run(start, StateView::PreStart, events_of(events@), i as int + 1) == step_spec(
            graph@,
            state@,
            events_of(events@)[i as int],
        ));
        match step(graph, state, &events[i]) {
            Ok((next_graph, next_state)) => {
                graph = next_graph;
                state = next_state;
            },
            Err(e) => {
                proof {
                    lemma_run_error(
                        start,
                        StateView::PreStart,
                        events_of(events@),
                        i as int + 1,
                        events@.len() as int,
                    );
                }
                return Err(e);
            },
        }
        i = i + 1;
    }
    graph.ensure_wf();
    Ok(graph)
}

} // verus!
