use penyu::model::graph::{Graph, MemoryGraph};
use penyu::model::iri::Iri;
use penyu::model::literal::{Literal, LiteralTag};
use penyu::model::node::{BlankNode, Entity, Node};
use penyu::model::triple::Triple;
use penyu::read::event::{Attribute, Name, XmlEvent};
use penyu::read::xml::read;
use penyu::vocabs::{rdf, xsd};

fn name_of(name: xml::name::OwnedName) -> Name {
    Name { local_name: name.local_name, namespace: name.namespace, prefix: name.prefix }
}

fn event_of(event: xml::reader::XmlEvent) -> XmlEvent {
    match event {
        xml::reader::XmlEvent::StartDocument { .. } => XmlEvent::StartDocument,
        xml::reader::XmlEvent::EndDocument => XmlEvent::EndDocument,
        xml::reader::XmlEvent::ProcessingInstruction { .. } => XmlEvent::ProcessingInstruction,
        xml::reader::XmlEvent::StartElement { name, attributes, namespace } => {
            XmlEvent::StartElement {
                name: name_of(name),
                attributes: attributes
                    .into_iter()
                    .map(|a| Attribute { name: name_of(a.name), value: a.value })
                    .collect(),
                namespace: namespace.0.into_iter().collect(),
            }
        }
        xml::reader::XmlEvent::EndElement { name } => XmlEvent::EndElement { name: name_of(name) },
        xml::reader::XmlEvent::CData(string) => XmlEvent::CData(string),
        xml::reader::XmlEvent::Comment(_) => XmlEvent::Comment,
        xml::reader::XmlEvent::Characters(string) => XmlEvent::Characters(string),
        xml::reader::XmlEvent::Whitespace(_) => XmlEvent::Whitespace,
    }
}

fn events(document: &str) -> Vec<XmlEvent> {
    xml::EventReader::new(document.as_bytes())
        .into_iter()
        .map(|event| event_of(event.unwrap()))
        .collect()
}

fn parse(document: &str) -> MemoryGraph {
    match read(&events(document)) {
        Ok(graph) => graph,
        Err(error) => panic!("{}", error.to_text()),
    }
}

fn failure(document: &str) -> String {
    match read(&events(document)) {
        Ok(_) => panic!("the document was read"),
        Err(error) => error.to_text(),
    }
}

fn ex(local: &str) -> Iri {
    Iri::new(format!("http://example.org/{}", local))
}

fn resource(iri: Iri) -> Node {
    Node::Entity(Entity::Iri(iri))
}

fn blank(id: &str) -> Entity {
    Entity::BlankNode(BlankNode::new(id.to_string()))
}

const HEAD: &str = "<?xml version=\"1.0\"?>\n<rdf:RDF xmlns:rdf=\"http://www.w3.org/1999/02/22-rdf-syntax-ns#\" xmlns:ex=\"http://example.org/\">\n";

#[test]
fn document_with_a_flat_resource() {
    let document = format!(
        "{}  <ex:Person rdf:about=\"http://example.org/alice\">\n    <ex:name>Alice</ex:name>\n  </ex:Person>\n</rdf:RDF>\n",
        HEAD
    );
    let graph = parse(&document);
    let expected = vec![
        Triple::new(
            Entity::Iri(ex("alice")),
            ex("name"),
            Node::Literal(Literal::new("Alice".to_string(), LiteralTag::Type(xsd::string()))),
        ),
        Triple::new(Entity::Iri(ex("alice")), rdf::type_iri(), resource(ex("Person"))),
    ];
    assert_eq!(graph.triples(), expected);
    assert_eq!(graph.find_prefix("ex"), Some(Iri::new_str("http://example.org/")));
    assert_eq!(
        graph.find_prefix("rdf"),
        Some(Iri::new_str("http://www.w3.org/1999/02/22-rdf-syntax-ns#"))
    );
    let text = penyu::writer::write(&graph);
    assert!(text.contains("PREFIX ex: <http://example.org/>\n"));
    assert!(text.ends_with(" .\n"));
}

#[test]
fn document_with_a_nested_resource() {
    let document = format!(
        "{}<ex:Person rdf:about=\"http://example.org/alice\"><ex:knows><ex:Person/></ex:knows></ex:Person></rdf:RDF>",
        HEAD
    );
    let graph = parse(&document);
    let triples = graph.triples();
    assert_eq!(triples.len(), 3);
    assert!(triples.contains(&Triple::new(blank("node0"), ex("knows"), resource(ex("alice")))));
    assert!(triples.contains(&Triple::new(blank("node0"), rdf::type_iri(), resource(ex("Person")))));
}

#[test]
fn document_with_a_resource_attribute() {
    let document = format!(
        "{}<ex:Person rdf:about=\"http://example.org/alice\"><ex:knows rdf:resource=\"http://example.org/bob\"/></ex:Person></rdf:RDF>",
        HEAD
    );
    let graph = parse(&document);
    let triples = graph.triples();
    assert_eq!(triples.len(), 2);
    assert_eq!(
        triples[0],
        Triple::new(Entity::Iri(ex("alice")), ex("knows"), resource(ex("bob")))
    );
}

#[test]
fn document_with_two_blank_nodes() {
    let document = format!("{}<ex:Person/><ex:Person/></rdf:RDF>", HEAD);
    let graph = parse(&document);
    let triples = graph.triples();
    assert_eq!(triples.len(), 2);
    assert_eq!(triples[0].subject, blank("node0"));
    assert_eq!(triples[1].subject, blank("node1"));
}

#[test]
fn document_that_binds_a_prefix_twice() {
    let document = format!(
        "{}<ex:Person><ex:knows><ex:Person xmlns:ex=\"http://other.org/\"/></ex:knows></ex:Person></rdf:RDF>",
        HEAD
    );
    assert_eq!(
        failure(&document),
        "Prefix ex used for http://other.org/, but already bound to http://example.org/"
    );
}

#[test]
fn document_that_binds_a_prefix_again_to_the_same_namespace() {
    let document = format!(
        "{}<ex:Person><ex:knows><ex:Person xmlns:ex=\"http://example.org/\"/></ex:knows></ex:Person></rdf:RDF>",
        HEAD
    );
    assert_eq!(parse(&document).len(), 3);
}

#[test]
fn document_with_language_and_datatype() {
    let document = format!(
        "{}<ex:Person><ex:name rdf:lang=\"en\" rdf:datatype=\"http://www.w3.org/2001/XMLSchema#token\">Alice</ex:name></ex:Person></rdf:RDF>",
        HEAD
    );
    assert_eq!(
        failure(&document),
        "Tag {http://example.org/}ex:name has both lang and datatype attributes"
    );
}

#[test]
fn document_with_another_root() {
    let document = "<?xml version=\"1.0\"?><html/>";
    assert_eq!(failure(document), "Unexpected start element");
}

#[test]
fn document_with_text_under_a_resource_attribute() {
    let document = format!(
        "{}<ex:Person rdf:about=\"http://example.org/alice\"><ex:knows rdf:resource=\"http://example.org/bob\">Bob</ex:knows></ex:Person></rdf:RDF>",
        HEAD
    );
    assert_eq!(failure(&document), "Unexpected characters Bob");
}
