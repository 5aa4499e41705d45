use penyu::model::iri::Iri;
use penyu::model::literal::{Literal, LiteralTag};
use penyu::model::node::{BlankNode, Entity, Node};
use penyu::model::triple::Triple;
use penyu::text::{padded_decimal_text, Rank};
use penyu::utils::twine::Twine;
use penyu::vocabs::obo::Ontology;
use penyu::vocabs::umls::Level;
use penyu::vocabs::{efo, hgnc, obo, obo_in_owl, rdf, rdfs, umls, uniprot, xml, xsd};
use std::sync::Arc;

#[test]
fn namespaces() {
    assert_eq!(rdf::namespace().as_str(), "http://www.w3.org/1999/02/22-rdf-syntax-ns#");
    assert_eq!(rdfs::namespace().as_str(), "http://www.w3.org/2000/01/rdf-schema#");
    assert_eq!(xsd::namespace().as_str(), "http://www.w3.org/2001/XMLSchema#");
    assert_eq!(xml::namespace().as_str(), "http://www.w3.org/XML/1998/namespace");
    assert_eq!(obo::namespace().as_str(), "http://purl.obolibrary.org/obo/");
    assert_eq!(efo::namespace().as_str(), "http://www.ebi.ac.uk/efo/EFO_");
    assert_eq!(hgnc::namespace().as_str(), "http://identifiers.org/hgnc/");
    assert_eq!(umls::namespace().as_str(), "http://id.nlm.nih.gov/mesh/");
    assert_eq!(uniprot::namespace().as_str(), "http://purl.uniprot.org/core/");
    assert_eq!(
        obo_in_owl::namespace().as_str(),
        "http://www.geneontology.org/formats/oboInOwl#"
    );
    assert_eq!(obo::PREFIX, "obo");
    assert_eq!(obo_in_owl::PREFIX, "oboInOwl");
}

#[test]
fn terms() {
    assert_eq!(rdf::type_iri().as_str(), "http://www.w3.org/1999/02/22-rdf-syntax-ns#type");
    assert_eq!(xsd::string().as_str(), "http://www.w3.org/2001/XMLSchema#string");
    assert_eq!(xsd::double().as_str(), "http://www.w3.org/2001/XMLSchema#double");
    assert_eq!(rdfs::label().as_str(), "http://www.w3.org/2000/01/rdf-schema#label");
    assert_eq!(rdfs::sub_class_of().as_str(), "http://www.w3.org/2000/01/rdf-schema#subClassOf");
    assert_eq!(
        rdfs::container_membership_property().as_str(),
        "http://www.w3.org/2000/01/rdf-schema#ContainerMembershipProperty"
    );
    assert_eq!(rdfs::see_also().as_str(), "http://www.w3.org/2000/01/rdf-schema#seeAlso");
    assert_eq!(
        obo_in_owl::has_exact_synonym().as_str(),
        "http://www.geneontology.org/formats/oboInOwl#hasExactSynonym"
    );
}

#[test]
fn ontology_terms_have_seven_digits() {
    assert_eq!(Ontology::MONDO.namespace().as_str(), "http://purl.obolibrary.org/obo/MONDO_");
    assert_eq!(Ontology::CHEBI.namespace().as_str(), "http://purl.obolibrary.org/obo/CHEBI_");
    assert_eq!(
        Ontology::UBERON.create_iri(955).as_str(),
        "http://purl.obolibrary.org/obo/UBERON_0000955"
    );
    assert_eq!(Ontology::RO.create_iri(0).as_str(), "http://purl.obolibrary.org/obo/RO_0000000");
    assert_eq!(
        Ontology::SO.create_iri(12345678).as_str(),
        "http://purl.obolibrary.org/obo/SO_12345678"
    );
    assert_eq!(Ontology::GENO.create_iri(1).as_str(), "http://purl.obolibrary.org/obo/GENO_0000001");
}

#[test]
fn identifiers_of_the_other_vocabularies() {
    assert_eq!(hgnc::create_iri(1100).as_str(), "http://identifiers.org/hgnc/1100");
    assert_eq!(uniprot::create_iri("P38398").as_str(), "http://purl.uniprot.org/core/P38398");
    assert_eq!(efo::create_iri(305).as_str(), "http://purl.uniprot.org/core/0000305");
    assert_eq!(Level::Concept.letter(), 'C');
    assert_eq!(Level::Lexical.letter(), 'L');
    assert_eq!(Level::String.letter(), 'S');
    assert_eq!(Level::Atom.letter(), 'A');
    assert_eq!(Level::Concept.create_iri(6142).as_str(), "http://id.nlm.nih.gov/mesh/C0006142");
    assert_eq!(Level::Atom.create_iri(12345678).as_str(), "http://id.nlm.nih.gov/mesh/A12345678");
}

#[test]
fn numbers_with_zeros_in_front() {
    assert_eq!(padded_decimal_text(0, 7), "0000000");
    assert_eq!(padded_decimal_text(42, 7), "0000042");
    assert_eq!(padded_decimal_text(1234567, 7), "1234567");
    assert_eq!(padded_decimal_text(12345678, 7), "12345678");
    assert_eq!(padded_decimal_text(5, 0), "5");
}

#[test]
fn twines_compare_by_text() {
    let owned = Twine::from_string("abc".to_string());
    let borrowed = Twine::from_str("abc");
    let shared = Twine::from_shared(Arc::new("abd".to_string()));
    assert_eq!(owned.as_str(), "abc");
    assert_eq!(borrowed.as_str(), "abc");
    assert!(owned.equals(&borrowed));
    assert!(!owned.equals(&shared));
    assert_eq!(owned.rank(&shared), Rank::Less);
    assert_eq!(shared.rank(&borrowed), Rank::Greater);
    assert_eq!(owned.clone().rank(&owned), Rank::Equal);
    assert_eq!(shared.to_text(), "abd");
    assert_eq!(Twine::from("xyz").as_str(), "xyz");
    assert_eq!(Twine::from("xyz".to_string()).as_str(), "xyz");
    assert_eq!(Twine::from(&"xyz".to_string()).as_str(), "xyz");
    assert_eq!(Twine::from(Arc::new("xyz".to_string())).as_str(), "xyz");
    assert_eq!(Twine::from(&Arc::new("xyz".to_string())).as_str(), "xyz");
}

#[test]
fn values_convert_into_one_another() {
    let iri = Iri::from("http://a/b".to_string());
    assert_eq!(iri, Iri::from("http://a/b"));
    assert_eq!(Iri::from(&iri), iri);
    let blank = BlankNode::from("node0");
    assert_eq!(blank, BlankNode::from("node0".to_string()));
    assert_eq!(Entity::from(iri.clone()), Entity::Iri(iri.clone()));
    assert_eq!(Entity::from(&iri), Entity::Iri(iri.clone()));
    assert_eq!(Entity::from(blank.clone()), Entity::BlankNode(blank.clone()));
    assert_eq!(Entity::from(&blank), Entity::BlankNode(blank.clone()));
    let entity = Entity::from(&iri);
    assert_eq!(Entity::from(&entity), entity);
    assert_eq!(Node::from(entity.clone()), Node::Entity(entity.clone()));
    assert_eq!(Node::from(&entity), Node::Entity(entity.clone()));
    assert_eq!(Node::from(iri.clone()), Node::Entity(entity.clone()));
    assert_eq!(Node::from(&iri), Node::Entity(entity.clone()));
    let literal = Literal::from("text".to_string());
    assert_eq!(literal, Literal::new("text".to_string(), LiteralTag::Type(xsd::string())));
    assert_eq!(Node::from(&literal), Node::Literal(literal.clone()));
    assert_eq!(Node::from(literal.clone()), Node::Literal(literal.clone()));
    let node = Node::from(&literal);
    assert_eq!(Node::from(&node), node);
    let triple = Triple::create(&entity, &iri, &node);
    assert_eq!(triple, Triple::new(entity, iri, node));
}

#[test]
fn ontology_prefixes_and_namespaces() {
    assert_eq!(obo::prefixes::CHEBI, "chebi");
    assert_eq!(obo::prefixes::GENO, "geno");
    assert_eq!(obo::prefixes::MONDO, "mondo");
    assert_eq!(obo::prefixes::RO, "ro");
    assert_eq!(obo::prefixes::SO, "so");
    assert_eq!(obo::prefixes::UBERON, "uberon");
    assert_eq!(obo::ns::chebi().as_str(), "http://purl.obolibrary.org/obo/CHEBI_");
    assert_eq!(obo::ns::geno().as_str(), "http://purl.obolibrary.org/obo/GENO_");
    assert_eq!(obo::ns::mondo().as_str(), "http://purl.obolibrary.org/obo/MONDO_");
    assert_eq!(obo::ns::ro().as_str(), "http://purl.obolibrary.org/obo/RO_");
    assert_eq!(obo::ns::so().as_str(), "http://purl.obolibrary.org/obo/SO_");
    assert_eq!(obo::ns::uberon().as_str(), "http://purl.obolibrary.org/obo/UBERON_");
}
