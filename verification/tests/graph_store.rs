use penyu::model::graph::{Graph, MemoryGraph};
use penyu::model::iri::Iri;
use penyu::model::literal::{Literal, LiteralTag};
use penyu::model::node::{BlankNode, Entity, Node};
use penyu::model::triple::Triple;
use penyu::text::{compare_text, Rank};
use penyu::vocabs::xsd;

fn iri(text: &str) -> Iri {
    Iri::new(text.to_string())
}

fn subject(text: &str) -> Entity {
    Entity::Iri(iri(text))
}

fn object(text: &str) -> Node {
    Node::Entity(Entity::Iri(iri(text)))
}

fn plain(text: &str) -> Node {
    Node::Literal(Literal::new(text.to_string(), LiteralTag::Type(xsd::string())))
}

#[test]
fn new_graph_is_empty() {
    let graph = MemoryGraph::new();
    assert!(graph.is_empty());
    assert_eq!(graph.len(), 0);
    assert_eq!(graph.triples().len(), 0);
    assert_eq!(graph.prefixes().len(), 0);
    assert!(graph.default_ns().is_none());
}

#[test]
fn default_graph_is_the_new_graph() {
    let graph = MemoryGraph::default();
    assert!(graph.is_empty());
    assert_eq!(graph.prefixes().len(), 0);
    assert!(graph.default_ns().is_none());
}

#[test]
fn copies_of_an_iri_are_equal() {
    let one = iri("http://a/b");
    let other = one.clone();
    assert_eq!(one, other);
    assert_eq!(one.rank(&other), Rank::Equal);
    assert_eq!(other.as_str(), "http://a/b");
}

#[test]
fn adding_a_triple_twice_keeps_one() {
    let mut graph = MemoryGraph::new();
    graph.add(subject("http://a/s"), iri("http://a/p"), object("http://a/o"));
    let once = graph.triples();
    graph.add(subject("http://a/s"), iri("http://a/p"), object("http://a/o"));
    let twice = graph.triples();
    assert_eq!(once.len(), 1);
    assert_eq!(twice.len(), 1);
    assert_eq!(once, twice);
    assert_eq!(graph.len(), 1);
    assert!(!graph.is_empty());
}

#[test]
fn add_triple_is_add() {
    let mut one = MemoryGraph::new();
    one.add(subject("http://a/s"), iri("http://a/p"), plain("v"));
    let mut other = MemoryGraph::new();
    other.add_triple(Triple::new(subject("http://a/s"), iri("http://a/p"), plain("v")));
    assert_eq!(one.triples(), other.triples());
}

#[test]
fn same_subject_and_predicate_keep_both_objects() {
    let mut graph = MemoryGraph::new();
    graph.add(subject("http://a/s"), iri("http://a/p"), plain("two"));
    graph.add(subject("http://a/s"), iri("http://a/p"), plain("one"));
    let triples = graph.triples();
    assert_eq!(triples.len(), 2);
    assert_eq!(triples[0].object, plain("one"));
    assert_eq!(triples[1].object, plain("two"));
}

#[test]
fn triples_come_in_canonical_order() {
    let mut graph = MemoryGraph::new();
    let blank = Entity::BlankNode(BlankNode::new("node0".to_string()));
    graph.add(blank.clone(), iri("http://a/p"), object("http://a/o"));
    graph.add(subject("http://b/s"), iri("http://a/p"), object("http://a/o"));
    graph.add(subject("http://a/s"), iri("http://a/q"), object("http://a/o"));
    graph.add(subject("http://a/s"), iri("http://a/p"), plain("text"));
    graph.add(subject("http://a/s"), iri("http://a/p"), object("http://a/z"));
    graph.add(subject("http://a/s"), iri("http://a/p"), object("http://a/o"));
    let triples = graph.triples();
    let expected = vec![
        Triple::new(subject("http://a/s"), iri("http://a/p"), object("http://a/o")),
        Triple::new(subject("http://a/s"), iri("http://a/p"), object("http://a/z")),
        Triple::new(subject("http://a/s"), iri("http://a/p"), plain("text")),
        Triple::new(subject("http://a/s"), iri("http://a/q"), object("http://a/o")),
        Triple::new(subject("http://b/s"), iri("http://a/p"), object("http://a/o")),
        Triple::new(blank, iri("http://a/p"), object("http://a/o")),
    ];
    assert_eq!(triples, expected);
    for i in 1..triples.len() {
        assert_eq!(triples[i - 1].rank(&triples[i]), Rank::Less);
        assert!(triples[i - 1] < triples[i]);
    }
}

#[test]
fn order_of_insertion_does_not_matter() {
    let items = vec![
        ("http://a/3", "x"),
        ("http://a/1", "y"),
        ("http://a/2", "z"),
        ("http://a/1", "a"),
    ];
    let mut forward = MemoryGraph::new();
    for (s, v) in items.iter() {
        forward.add(subject(s), iri("http://a/p"), plain(v));
    }
    let mut backward = MemoryGraph::new();
    for (s, v) in items.iter().rev() {
        backward.add(subject(s), iri("http://a/p"), plain(v));
    }
    assert_eq!(forward.triples(), backward.triples());
    assert_eq!(forward.len(), 4);
}

#[test]
fn literals_order_by_value_then_tag() {
    let a = Literal::new("a".to_string(), LiteralTag::LangTag("en".to_string()));
    let b = Literal::new("a".to_string(), LiteralTag::Type(xsd::string()));
    let c = Literal::new("b".to_string(), LiteralTag::Type(xsd::string()));
    assert_eq!(b.rank(&a), Rank::Less);
    assert_eq!(a.rank(&b), Rank::Greater);
    assert_eq!(a.rank(&c), Rank::Less);
    assert_eq!(c.rank(&c), Rank::Equal);
    assert!(b < a);
    assert!(a < c);
}

#[test]
fn text_is_ordered_by_bytes() {
    assert_eq!(compare_text("abc", "abd"), Rank::Less);
    assert_eq!(compare_text("abc", "abc"), Rank::Equal);
    assert_eq!(compare_text("abc", "ab"), Rank::Greater);
    assert_eq!(compare_text("", "a"), Rank::Less);
    assert_eq!(compare_text("Z", "a"), Rank::Less);
    assert_eq!(compare_text("\u{e9}", "z"), Rank::Greater);
    assert_eq!(compare_text("\u{10000}", "\u{ffff}"), Rank::Greater);
}

#[test]
fn prefix_table_keeps_the_last_binding() {
    let mut graph = MemoryGraph::new();
    graph.add_prefix("ex".to_string(), iri("http://one/"));
    graph.add_prefix("a".to_string(), iri("http://a/"));
    graph.add_prefix("ex".to_string(), iri("http://two/"));
    graph.add_prefix("z".to_string(), iri("http://z/"));
    let prefixes = graph.prefixes();
    assert_eq!(prefixes.len(), 3);
    assert_eq!(prefixes[0], ("a".to_string(), iri("http://a/")));
    assert_eq!(prefixes[1], ("ex".to_string(), iri("http://two/")));
    assert_eq!(prefixes[2], ("z".to_string(), iri("http://z/")));
    assert_eq!(graph.find_prefix("ex"), Some(iri("http://two/")));
    assert_eq!(graph.find_prefix("none"), None);
}

#[test]
fn default_namespace_is_recorded() {
    let mut graph = MemoryGraph::new();
    graph.set_default_ns(iri("http://base/"));
    assert_eq!(graph.default_ns(), &Some(iri("http://base/")));
    graph.set_default_ns(iri("http://other/"));
    assert_eq!(graph.default_ns(), &Some(iri("http://other/")));
}

#[test]
fn iri_join_appends_the_local_name() {
    let base = iri("http://example.org/");
    assert_eq!(base.join("alice".to_string()).as_str(), "http://example.org/alice");
    assert_eq!(base.join_str("bob").as_str(), "http://example.org/bob");
    assert_eq!(Iri::new_str("http://x/").as_str(), "http://x/");
}

#[test]
fn iri_same_as_compares_bytes() {
    let base = iri("http://example.org/");
    assert!(base.same_as("http://example.org/".as_bytes()));
    assert!(!base.same_as("http://example.org".as_bytes()));
    assert!(!base.same_as("http://Example.org/".as_bytes()));
    assert!(!base.same_as("http://example.org/x".as_bytes()));
    assert!(base.same_text("http://example.org/"));
    assert!(!base.same_text("http://example.com/"));
}

#[test]
fn blank_node_keeps_its_id() {
    let node = BlankNode::new("node7".to_string());
    assert_eq!(node.id(), "node7");
    assert_eq!(node.clone(), node);
}

#[test]
fn iri_same_as_compares_the_bytes_of_other_scripts() {
    let base = iri("http://example.org/\u{e9}t\u{e9}");
    assert!(base.same_as("http://example.org/\u{e9}t\u{e9}".as_bytes()));
    assert!(base.same_as(&[
        104, 116, 116, 112, 58, 47, 47, 101, 120, 97, 109, 112, 108, 101, 46, 111, 114, 103, 47,
        195, 169, 116, 195, 169
    ]));
    assert!(!base.same_as("http://example.org/ete".as_bytes()));
}
