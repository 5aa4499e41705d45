use penyu::error::PenyuError;
use penyu::model::graph::{Graph, MemoryGraph};
use penyu::model::iri::Iri;
use penyu::model::literal::{Literal, LiteralTag};
use penyu::model::node::{BlankNode, Entity, Node};
use penyu::model::triple::Triple;
use penyu::read::event::{Attribute, Name, XmlEvent};
use penyu::read::xml::{read, step, Stack, State};
use penyu::vocabs::{rdf, xsd};

const RDF: &str = "http://www.w3.org/1999/02/22-rdf-syntax-ns#";
const EX: &str = "http://example.org/";

fn name(prefix: &str, ns: &str, local: &str) -> Name {
    Name {
        local_name: local.to_string(),
        namespace: Some(ns.to_string()),
        prefix: Some(prefix.to_string()),
    }
}

fn attribute(prefix: &str, ns: &str, local: &str, value: &str) -> Attribute {
    Attribute { name: name(prefix, ns, local), value: value.to_string() }
}

fn open(prefix: &str, ns: &str, local: &str, attributes: Vec<Attribute>) -> XmlEvent {
    XmlEvent::StartElement { name: name(prefix, ns, local), attributes, namespace: vec![] }
}

fn close(prefix: &str, ns: &str, local: &str) -> XmlEvent {
    XmlEvent::EndElement { name: name(prefix, ns, local) }
}

fn root(declared: Vec<(&str, &str)>) -> XmlEvent {
    XmlEvent::StartElement {
        name: name("rdf", RDF, "RDF"),
        attributes: vec![],
        namespace: declared.iter().map(|(p, n)| (p.to_string(), n.to_string())).collect(),
    }
}

fn document(body: Vec<XmlEvent>) -> Vec<XmlEvent> {
    let mut events = vec![XmlEvent::StartDocument, root(vec![("ex", EX), ("rdf", RDF)])];
    events.extend(body);
    events.push(close("rdf", RDF, "RDF"));
    events.push(XmlEvent::EndDocument);
    events
}

fn text(value: &str) -> XmlEvent {
    XmlEvent::Characters(value.to_string())
}

fn iri(value: &str) -> Iri {
    Iri::new(value.to_string())
}

fn ex(local: &str) -> Iri {
    iri(EX).join(local.to_string())
}

fn resource(value: Iri) -> Node {
    Node::Entity(Entity::Iri(value))
}

fn string(value: &str) -> Node {
    Node::Literal(Literal::new(value.to_string(), LiteralTag::Type(xsd::string())))
}

fn blank(id: &str) -> Entity {
    Entity::BlankNode(BlankNode::new(id.to_string()))
}

fn message(result: Result<MemoryGraph, PenyuError>) -> String {
    match result {
        Ok(_) => panic!("the document was read"),
        Err(error) => error.to_text(),
    }
}

fn graph(result: Result<MemoryGraph, PenyuError>) -> MemoryGraph {
    match result {
        Ok(graph) => graph,
        Err(error) => panic!("{}", error.to_text()),
    }
}

#[test]
fn flat_resource_with_a_text_property() {
    let events = document(vec![
        XmlEvent::Whitespace,
        open("ex", EX, "Person", vec![attribute("rdf", RDF, "about", "http://example.org/alice")]),
        XmlEvent::Whitespace,
        open("ex", EX, "name", vec![]),
        text("Alice"),
        close("ex", EX, "name"),
        XmlEvent::Whitespace,
        close("ex", EX, "Person"),
        XmlEvent::Whitespace,
    ]);
    let graph = graph(read(&events));
    let triples = graph.triples();
    assert_eq!(triples.len(), 2);
    assert!(triples.contains(&Triple::new(
        Entity::Iri(ex("alice")),
        rdf::type_iri(),
        resource(ex("Person"))
    )));
    assert!(triples.contains(&Triple::new(Entity::Iri(ex("alice")), ex("name"), string("Alice"))));
    assert_eq!(graph.prefixes().len(), 2);
    assert_eq!(
        penyu::writer::write(&graph),
        "PREFIX ex: <http://example.org/>\n\
         PREFIX rdf: <http://www.w3.org/1999/02/22-rdf-syntax-ns#>\n\
         ex:alice ex:name \"Alice\" ;\n    rdf:type ex:Person .\n"
    );
}

#[test]
fn nested_resource_is_the_subject_of_the_link() {
    let events = document(vec![
        open("ex", EX, "Person", vec![attribute("rdf", RDF, "about", "http://example.org/alice")]),
        open("ex", EX, "knows", vec![]),
        open("ex", EX, "Person", vec![]),
        close("ex", EX, "Person"),
        close("ex", EX, "knows"),
        close("ex", EX, "Person"),
    ]);
    let graph = graph(read(&events));
    let triples = graph.triples();
    let expected = vec![
        Triple::new(Entity::Iri(ex("alice")), rdf::type_iri(), resource(ex("Person"))),
        Triple::new(blank("node0"), ex("knows"), resource(ex("alice"))),
        Triple::new(blank("node0"), rdf::type_iri(), resource(ex("Person"))),
    ];
    assert_eq!(triples, expected);
}

#[test]
fn resource_attribute_gives_the_object() {
    let events = document(vec![
        open("ex", EX, "Person", vec![attribute("rdf", RDF, "about", "http://example.org/alice")]),
        open("ex", EX, "knows", vec![attribute("rdf", RDF, "resource", "http://example.org/bob")]),
        close("ex", EX, "knows"),
        close("ex", EX, "Person"),
    ]);
    let graph = graph(read(&events));
    let triples = graph.triples();
    let links: Vec<&Triple> = triples.iter().filter(|t| t.predicate == ex("knows")).collect();
    assert_eq!(links.len(), 1);
    assert_eq!(links[0].subject, Entity::Iri(ex("alice")));
    assert_eq!(links[0].object, resource(ex("bob")));
    assert_eq!(triples.len(), 2);
    assert!(triples.iter().all(|t| matches!(t.object, Node::Entity(_))));
}

#[test]
fn blank_nodes_are_numbered_in_encounter_order() {
    let events = document(vec![
        open("ex", EX, "Person", vec![]),
        open("ex", EX, "knows", vec![]),
        open("ex", EX, "Person", vec![]),
        close("ex", EX, "Person"),
        close("ex", EX, "knows"),
        close("ex", EX, "Person"),
        open("ex", EX, "Place", vec![]),
        close("ex", EX, "Place"),
    ]);
    let graph = graph(read(&events));
    let triples = graph.triples();
    let expected = vec![
        Triple::new(blank("node0"), rdf::type_iri(), resource(ex("Person"))),
        Triple::new(blank("node1"), ex("knows"), Node::Entity(blank("node0"))),
        Triple::new(blank("node1"), rdf::type_iri(), resource(ex("Person"))),
        Triple::new(blank("node2"), rdf::type_iri(), resource(ex("Place"))),
    ];
    assert_eq!(triples, expected);
}

#[test]
fn sibling_blank_nodes_are_distinct() {
    let events = document(vec![
        open("ex", EX, "Person", vec![]),
        close("ex", EX, "Person"),
        open("ex", EX, "Person", vec![]),
        close("ex", EX, "Person"),
    ]);
    let graph = graph(read(&events));
    let triples = graph.triples();
    assert_eq!(triples.len(), 2);
    assert_eq!(triples[0].subject, blank("node0"));
    assert_eq!(triples[1].subject, blank("node1"));
}

#[test]
fn same_prefix_for_another_namespace_is_rejected() {
    let events = document(vec![
        open("ex", EX, "Person", vec![]),
        open("ex", "http://other.org/", "name", vec![]),
    ]);
    assert_eq!(
        message(read(&events)),
        "Prefix ex used for http://other.org/, but already bound to http://example.org/"
    );
}

#[test]
fn same_prefix_for_another_namespace_is_rejected_deep_down() {
    let events = document(vec![
        open("ex", EX, "Person", vec![]),
        open("ex", EX, "knows", vec![]),
        open("ex", EX, "Person", vec![]),
        open("ex", EX, "knows", vec![]),
        open("ex", "http://example.org", "Person", vec![]),
    ]);
    assert_eq!(
        message(read(&events)),
        "Prefix ex used for http://example.org, but already bound to http://example.org/"
    );
}

#[test]
fn same_prefix_for_the_same_namespace_is_accepted() {
    let events = document(vec![
        open("ex", EX, "Person", vec![]),
        open("ex", EX, "name", vec![]),
        close("ex", EX, "name"),
        close("ex", EX, "Person"),
    ]);
    let graph = graph(read(&events));
    assert_eq!(graph.find_prefix("ex"), Some(iri(EX)));
    assert_eq!(graph.len(), 1);
}

#[test]
fn unbound_prefix_is_bound_by_its_first_tag() {
    let events = document(vec![
        open("foaf", "http://xmlns.com/foaf/0.1/", "Person", vec![]),
        close("foaf", "http://xmlns.com/foaf/0.1/", "Person"),
    ]);
    let graph = graph(read(&events));
    assert_eq!(graph.find_prefix("foaf"), Some(iri("http://xmlns.com/foaf/0.1/")));
    assert_eq!(graph.prefixes().len(), 3);
    assert_eq!(
        graph.triples(),
        vec![Triple::new(
            blank("node0"),
            rdf::type_iri(),
            resource(iri("http://xmlns.com/foaf/0.1/Person"))
        )]
    );
}

#[test]
fn tag_without_prefix_uses_the_empty_prefix() {
    let tag = Name {
        local_name: "Thing".to_string(),
        namespace: Some("http://default.org/".to_string()),
        prefix: None,
    };
    let events = vec![
        XmlEvent::StartDocument,
        root(vec![("rdf", RDF)]),
        XmlEvent::StartElement { name: tag, attributes: vec![], namespace: vec![] },
    ];
    let graph = graph(read(&events));
    assert_eq!(graph.find_prefix(""), Some(iri("http://default.org/")));
    assert_eq!(
        graph.triples()[0].object,
        resource(iri("http://default.org/Thing"))
    );
}

#[test]
fn tag_without_namespace_is_rejected() {
    let tag = Name { local_name: "Thing".to_string(), namespace: None, prefix: None };
    let events = document(vec![
        XmlEvent::StartElement { name: tag, attributes: vec![], namespace: vec![] },
    ]);
    assert_eq!(message(read(&events)), "No namespace for tag: Thing");
}

#[test]
fn language_and_datatype_together_are_rejected() {
    let events = document(vec![
        open("ex", EX, "Person", vec![]),
        open(
            "ex",
            EX,
            "name",
            vec![
                attribute("rdf", RDF, "lang", "en"),
                attribute("rdf", RDF, "datatype", "http://www.w3.org/2001/XMLSchema#token"),
            ],
        ),
    ]);
    assert_eq!(
        message(read(&events)),
        "Tag {http://example.org/}ex:name has both lang and datatype attributes"
    );
}

#[test]
fn text_without_a_tag_is_a_string() {
    let events = document(vec![
        open("ex", EX, "Person", vec![attribute("rdf", RDF, "about", "http://example.org/alice")]),
        open("ex", EX, "name", vec![]),
        text("Alice"),
        close("ex", EX, "name"),
        close("ex", EX, "Person"),
    ]);
    let graph = graph(read(&events));
    let triples = graph.triples();
    assert_eq!(
        triples[0].object,
        Node::Literal(Literal::new(
            "Alice".to_string(),
            LiteralTag::Type(iri("http://www.w3.org/2001/XMLSchema#string"))
        ))
    );
}

#[test]
fn language_tag_is_kept() {
    let events = document(vec![
        open("ex", EX, "Person", vec![attribute("rdf", RDF, "about", "http://example.org/alice")]),
        open("ex", EX, "name", vec![attribute("rdf", RDF, "lang", "fr")]),
        XmlEvent::CData("Alice".to_string()),
        close("ex", EX, "name"),
        close("ex", EX, "Person"),
    ]);
    let graph = graph(read(&events));
    assert_eq!(
        graph.triples()[0].object,
        Node::Literal(Literal::new("Alice".to_string(), LiteralTag::LangTag("fr".to_string())))
    );
}

#[test]
fn datatype_is_kept_and_later_text_is_a_string() {
    let events = document(vec![
        open("ex", EX, "Person", vec![attribute("rdf", RDF, "about", "http://example.org/alice")]),
        open(
            "ex",
            EX,
            "age",
            vec![attribute("rdf", RDF, "datatype", "http://www.w3.org/2001/XMLSchema#int")],
        ),
        text("42"),
        text("43"),
        close("ex", EX, "age"),
        close("ex", EX, "Person"),
    ]);
    let graph = graph(read(&events));
    let triples = graph.triples();
    assert_eq!(triples.len(), 3);
    assert_eq!(
        triples[0].object,
        Node::Literal(Literal::new(
            "42".to_string(),
            LiteralTag::Type(iri("http://www.w3.org/2001/XMLSchema#int"))
        ))
    );
    assert_eq!(triples[1].object, string("43"));
}

#[test]
fn attribute_in_another_namespace_is_not_seen() {
    let events = document(vec![
        open("ex", EX, "Person", vec![attribute("ex", EX, "about", "http://example.org/alice")]),
        close("ex", EX, "Person"),
    ]);
    let graph = graph(read(&events));
    assert_eq!(graph.triples()[0].subject, blank("node0"));
}

#[test]
fn last_of_two_equal_attributes_counts() {
    let events = document(vec![
        open(
            "ex",
            EX,
            "Person",
            vec![
                attribute("rdf", RDF, "about", "http://example.org/alice"),
                attribute("rdf", RDF, "about", "http://example.org/bob"),
            ],
        ),
        close("ex", EX, "Person"),
    ]);
    let graph = graph(read(&events));
    assert_eq!(graph.triples()[0].subject, Entity::Iri(ex("bob")));
}

#[test]
fn base_attribute_sets_the_default_namespace() {
    let events = vec![
        XmlEvent::StartDocument,
        XmlEvent::StartElement {
            name: name("rdf", RDF, "RDF"),
            attributes: vec![attribute(
                "xml",
                "http://www.w3.org/XML/1998/namespace",
                "base",
                "http://base.org/",
            )],
            namespace: vec![("rdf".to_string(), RDF.to_string())],
        },
        close("rdf", RDF, "RDF"),
        XmlEvent::EndDocument,
    ];
    let graph = graph(read(&events));
    assert_eq!(graph.default_ns(), &Some(iri("http://base.org/")));
    assert!(graph.is_empty());
}

#[test]
fn other_attribute_on_the_root_is_rejected() {
    let events = vec![
        XmlEvent::StartDocument,
        XmlEvent::StartElement {
            name: name("rdf", RDF, "RDF"),
            attributes: vec![attribute("ex", EX, "version", "1")],
            namespace: vec![],
        },
    ];
    assert_eq!(
        message(read(&events)),
        "Unexpected attribute {http://example.org/}ex:version=\"1\""
    );
}

#[test]
fn root_declarations_are_bound() {
    let events = vec![
        XmlEvent::StartDocument,
        root(vec![("ex", "http://one/"), ("owl", "http://www.w3.org/2002/07/owl#"), ("ex", EX)]),
    ];
    let graph = graph(read(&events));
    let prefixes = graph.prefixes();
    assert_eq!(prefixes.len(), 2);
    assert_eq!(prefixes[0], ("ex".to_string(), iri(EX)));
    assert_eq!(prefixes[1], ("owl".to_string(), iri("http://www.w3.org/2002/07/owl#")));
}

#[test]
fn second_document_start_is_rejected() {
    let events = vec![XmlEvent::StartDocument, XmlEvent::StartDocument];
    assert_eq!(message(read(&events)), "Unexpected document start");
}

#[test]
fn start_tag_before_the_document_is_rejected() {
    let events = vec![root(vec![])];
    assert_eq!(
        message(read(&events)),
        "Unexpected start tag {http://www.w3.org/1999/02/22-rdf-syntax-ns#}rdf:RDF"
    );
}

#[test]
fn other_root_element_is_rejected() {
    let events = vec![XmlEvent::StartDocument, open("ex", EX, "Person", vec![])];
    assert_eq!(message(read(&events)), "Unexpected start element");
}

#[test]
fn text_before_the_root_is_rejected() {
    let events = vec![XmlEvent::StartDocument, text("hello")];
    assert_eq!(message(read(&events)), "Unexpected characters hello");
}

#[test]
fn text_under_a_resource_is_rejected() {
    let events = document(vec![open("ex", EX, "Person", vec![]), text("hello")]);
    assert_eq!(message(read(&events)), "Unexpected characters hello");
}

#[test]
fn text_under_the_root_is_rejected() {
    let events = document(vec![text("hello")]);
    assert_eq!(message(read(&events)), "Unexpected characters hello");
}

#[test]
fn end_tag_outside_the_root_is_rejected() {
    let events = vec![XmlEvent::StartDocument, close("ex", EX, "Person")];
    assert_eq!(message(read(&events)), "Unexpected end tag {http://example.org/}ex:Person");
}

#[test]
fn other_end_tag_at_the_root_is_rejected() {
    let events = vec![XmlEvent::StartDocument, root(vec![]), close("ex", EX, "Person")];
    assert_eq!(message(read(&events)), "Unexpected end tag {http://example.org/}ex:Person");
}

#[test]
fn document_end_before_the_root_closed_is_rejected() {
    let events = vec![XmlEvent::StartDocument, root(vec![]), XmlEvent::EndDocument];
    assert_eq!(message(read(&events)), "Unexpected end of document");
}

#[test]
fn start_tag_after_the_root_is_rejected() {
    let events = vec![
        XmlEvent::StartDocument,
        root(vec![]),
        close("rdf", RDF, "RDF"),
        open("ex", EX, "Person", vec![]),
    ];
    assert_eq!(message(read(&events)), "Unexpected start tag {http://example.org/}ex:Person");
}

#[test]
fn comments_and_instructions_are_passed_over() {
    let events = vec![
        XmlEvent::Comment,
        XmlEvent::StartDocument,
        XmlEvent::ProcessingInstruction,
        root(vec![]),
        XmlEvent::Comment,
        XmlEvent::Whitespace,
        close("rdf", RDF, "RDF"),
        XmlEvent::ProcessingInstruction,
        XmlEvent::EndDocument,
        XmlEvent::Comment,
    ];
    assert!(graph(read(&events)).is_empty());
}

#[test]
fn no_events_give_the_empty_graph() {
    let graph = graph(read(&vec![]));
    assert!(graph.is_empty());
    assert_eq!(graph.prefixes().len(), 0);
}

#[test]
fn empty_stack_cannot_be_popped() {
    let stack = Stack::new();
    assert!(stack.is_empty());
    match stack.pop() {
        Ok(_) => panic!("the empty stack was popped"),
        Err(error) => assert_eq!(error.to_text(), "Stack is empty"),
    }
}

#[test]
fn steps_go_through_the_phases() {
    let graph = MemoryGraph::new();
    let (graph, state) = match step(graph, State::PreStart, &XmlEvent::StartDocument) {
        Ok(next) => next,
        Err(error) => panic!("{}", error.to_text()),
    };
    assert!(matches!(state, State::Started));
    let (graph, state) = match step(graph, state, &root(vec![("ex", EX)])) {
        Ok(next) => next,
        Err(error) => panic!("{}", error.to_text()),
    };
    match &state {
        State::Rdf { stack, n_b_nodes } => {
            assert!(stack.is_empty());
            assert_eq!(*n_b_nodes, 0);
        }
        _ => panic!("not inside the root element"),
    }
    let (graph, state) = match step(graph, state, &open("ex", EX, "Person", vec![])) {
        Ok(next) => next,
        Err(error) => panic!("{}", error.to_text()),
    };
    match &state {
        State::Rdf { stack, n_b_nodes } => {
            assert_eq!(stack.depth(), 1);
            assert_eq!(*n_b_nodes, 1);
        }
        _ => panic!("not inside the root element"),
    }
    let (graph, state) = match step(graph, state, &close("ex", EX, "Person")) {
        Ok(next) => next,
        Err(error) => panic!("{}", error.to_text()),
    };
    let (graph, state) = match step(graph, state, &close("rdf", RDF, "RDF")) {
        Ok(next) => next,
        Err(error) => panic!("{}", error.to_text()),
    };
    assert!(matches!(state, State::PostRdf));
    let (graph, state) = match step(graph, state, &XmlEvent::EndDocument) {
        Ok(next) => next,
        Err(error) => panic!("{}", error.to_text()),
    };
    assert!(matches!(state, State::PostEnd));
    assert_eq!(graph.len(), 1);
}

#[test]
fn writer_groups_by_subject_and_predicate() {
    let mut graph = MemoryGraph::new();
    graph.add_prefix("ex".to_string(), iri(EX));
    graph.add(Entity::Iri(ex("alice")), ex("knows"), resource(ex("bob")));
    graph.add(Entity::Iri(ex("alice")), ex("knows"), resource(ex("carol")));
    graph.add(Entity::Iri(ex("alice")), ex("name"), string("Alice"));
    graph.add(Entity::Iri(ex("bob")), ex("name"), string("Bob"));
    graph.add(blank("node0"), ex("name"), string("Nobody"));
    assert_eq!(
        penyu::writer::write(&graph),
        "PREFIX ex: <http://example.org/>\n\
         ex:alice ex:knows ex:bob, ex:carol ;\n    ex:name \"Alice\" .\n\
         ex:bob ex:name \"Bob\" .\n\
         _:node0 ex:name \"Nobody\" .\n"
    );
}

#[test]
fn writer_of_the_empty_graph_writes_nothing() {
    assert_eq!(penyu::writer::write(&MemoryGraph::new()), "");
}

#[test]
fn writer_of_prefixes_alone() {
    let mut graph = MemoryGraph::new();
    graph.add_prefix("rdf".to_string(), iri(RDF));
    graph.add_prefix("ex".to_string(), iri(EX));
    assert_eq!(
        penyu::writer::write(&graph),
        "PREFIX ex: <http://example.org/>\n\
         PREFIX rdf: <http://www.w3.org/1999/02/22-rdf-syntax-ns#>\n"
    );
}

#[test]
fn writer_keeps_an_iri_whole_where_no_prefix_fits() {
    let mut graph = MemoryGraph::new();
    graph.add_prefix("ex".to_string(), iri(EX));
    graph.add(
        Entity::Iri(iri("http://other.org/a")),
        ex("path/to"),
        resource(iri("http://example.org/a b")),
    );
    assert_eq!(
        penyu::writer::write(&graph),
        "PREFIX ex: <http://example.org/>\n\
         <http://other.org/a> <http://example.org/path/to> <http://example.org/a b> .\n"
    );
}

#[test]
fn writer_takes_the_first_prefix_that_fits() {
    let mut graph = MemoryGraph::new();
    graph.add_prefix("a".to_string(), iri("http://example.org/"));
    graph.add_prefix("b".to_string(), iri("http://example.org/people/"));
    graph.add(
        Entity::Iri(iri("http://example.org/people/alice")),
        iri("http://example.org/name"),
        string("Alice"),
    );
    assert_eq!(
        penyu::writer::write(&graph),
        "PREFIX a: <http://example.org/>\n\
         PREFIX b: <http://example.org/people/>\n\
         <http://example.org/people/alice> a:name \"Alice\" .\n"
    );
}

#[test]
fn writer_of_literals() {
    let mut graph = MemoryGraph::new();
    graph.add_prefix("xsd".to_string(), xsd::namespace());
    let s = Entity::Iri(iri("http://a/s"));
    let p = iri("http://a/p");
    graph.add(s.clone(), p.clone(), string("plain"));
    graph.add(
        s.clone(),
        p.clone(),
        Node::Literal(Literal::new("7".to_string(), LiteralTag::Type(xsd::namespace().join_str("int")))),
    );
    graph.add(
        s.clone(),
        p.clone(),
        Node::Literal(Literal::new("sept".to_string(), LiteralTag::LangTag("fr".to_string()))),
    );
    graph.add(
        s,
        p,
        Node::Literal(Literal::new("x".to_string(), LiteralTag::Type(iri("http://types/t")))),
    );
    assert_eq!(
        penyu::writer::write(&graph),
        "PREFIX xsd: <http://www.w3.org/2001/XMLSchema#>\n\
         <http://a/s> <http://a/p> \"7\"^^xsd:int, \"plain\", \"sept\"@fr, \"x\"^^<http://types/t> .\n"
    );
}

#[test]
fn writer_abbreviates_a_namespace_itself() {
    let mut graph = MemoryGraph::new();
    graph.add_prefix("ex".to_string(), iri(EX));
    graph.add(Entity::Iri(iri(EX)), ex("a:b"), resource(ex("x_y-z.1")));
    assert_eq!(
        penyu::writer::write(&graph),
        "PREFIX ex: <http://example.org/>\nex: ex:a:b ex:x_y-z.1 .\n"
    );
}

#[test]
fn writer_of_a_blank_node() {
    let mut out = "x ".to_string();
    penyu::writer::write_blank_node(&mut out, &BlankNode::new("node12".to_string()));
    assert_eq!(out, "x _:node12");
}

#[test]
fn text_under_a_property_with_a_resource_is_rejected() {
    let events = document(vec![
        open("ex", EX, "Person", vec![attribute("rdf", RDF, "about", "http://example.org/alice")]),
        open("ex", EX, "knows", vec![attribute("rdf", RDF, "resource", "http://example.org/bob")]),
        text("Bob"),
        close("ex", EX, "knows"),
        close("ex", EX, "Person"),
    ]);
    assert_eq!(message(read(&events)), "Unexpected characters Bob");
}

#[test]
fn cdata_under_a_property_with_a_resource_is_rejected() {
    let events = document(vec![
        open("ex", EX, "Person", vec![]),
        open("ex", EX, "knows", vec![attribute("rdf", RDF, "resource", "http://example.org/bob")]),
        XmlEvent::CData("Bob".to_string()),
    ]);
    assert_eq!(message(read(&events)), "Unexpected characters Bob");
}

#[test]
fn whitespace_under_a_property_with_a_resource_is_passed_over() {
    let events = document(vec![
        open("ex", EX, "Person", vec![attribute("rdf", RDF, "about", "http://example.org/alice")]),
        open("ex", EX, "knows", vec![attribute("rdf", RDF, "resource", "http://example.org/bob")]),
        XmlEvent::Whitespace,
        close("ex", EX, "knows"),
        close("ex", EX, "Person"),
    ]);
    let graph = graph(read(&events));
    assert_eq!(graph.len(), 2);
}

#[test]
fn step_leaves_a_satisfied_property_on_the_stack() {
    let graph = MemoryGraph::new();
    let mut state = State::PreStart;
    let mut graph = graph;
    let events = vec![
        XmlEvent::StartDocument,
        root(vec![("ex", EX), ("rdf", RDF)]),
        open("ex", EX, "Person", vec![]),
        open("ex", EX, "knows", vec![attribute("rdf", RDF, "resource", "http://example.org/bob")]),
    ];
    for event in events.iter() {
        match step(graph, state, event) {
            Ok((next_graph, next_state)) => {
                graph = next_graph;
                state = next_state;
            }
            Err(error) => panic!("{}", error.to_text()),
        }
    }
    match &state {
        State::Rdf { stack, n_b_nodes } => {
            assert_eq!(stack.depth(), 2);
            assert_eq!(*n_b_nodes, 1);
        }
        _ => panic!("not inside the root element"),
    }
    assert_eq!(graph.len(), 2);
    match step(graph, state, &text("Bob")) {
        Ok(_) => panic!("the text was taken"),
        Err(error) => assert_eq!(error.to_text(), "Unexpected characters Bob"),
    }
}

#[test]
fn writer_of_an_iri_with_given_answers() {
    let prefixes = vec![("ex".to_string(), iri(EX))];
    let alice = ex("alice");
    let mut answers = vec![false; 19];
    answers.extend(vec![true; 5]);
    let mut out = String::new();
    penyu::writer::write_iri_with(&mut out, &alice, &prefixes, &answers);
    assert_eq!(out, "ex:alice");
    let mut out = String::new();
    penyu::writer::write_iri_with(&mut out, &alice, &prefixes, &vec![]);
    assert_eq!(out, "<http://example.org/alice>");
    let mut out = "x ".to_string();
    penyu::writer::write_iri_with(&mut out, &iri("http://other.org/a"), &prefixes, &vec![true; 18]);
    assert_eq!(out, "x <http://other.org/a>");
    let mut out = String::new();
    penyu::writer::write_iri_with(&mut out, &ex("a_b-c.d:e"), &prefixes, &vec![]);
    assert_eq!(out, "<http://example.org/a_b-c.d:e>");
    let mut answers = vec![false; 19];
    answers.extend(vec![true, false, true, false, true, false, true, false, true]);
    let mut out = String::new();
    penyu::writer::write_iri_with(&mut out, &ex("a_b-c.d:e"), &prefixes, &answers);
    assert_eq!(out, "ex:a_b-c.d:e");
}

#[test]
fn plain_local_characters_with_given_answers() {
    assert!(penyu::writer::is_plain_local_char('a', true));
    assert!(!penyu::writer::is_plain_local_char('a', false));
    assert!(penyu::writer::is_plain_local_char(':', false));
    assert!(penyu::writer::is_plain_local_char('_', false));
    assert!(penyu::writer::is_plain_local_char('-', false));
    assert!(penyu::writer::is_plain_local_char('.', false));
    assert!(!penyu::writer::is_plain_local_char('/', false));
    assert!(penyu::writer::is_plain_local_char('/', true));
}
