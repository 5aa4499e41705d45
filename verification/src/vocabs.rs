pub mod efo;
pub mod hgnc;
pub mod obo;
pub mod obo_in_owl;
pub mod rdf;
pub mod rdfs;
pub mod umls;
pub mod uniprot;
pub mod xml;
pub mod xsd;
