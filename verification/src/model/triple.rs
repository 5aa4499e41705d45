use vstd::prelude::*;
use crate::model::iri::Iri;
use crate::model::node::{Entity, Node};
use crate::model::order::triple_rank;
use crate::model::TripleView;
use crate::text::Rank;

verus! {

/// One fact of a graph: a subject, a predicate and an object.
#[derive(Debug, Eq, PartialOrd, Ord)]
pub struct Triple {
    pub subject: Entity,
    pub predicate: Iri,
    pub object: Node,
}

impl View for Triple {
    type V = TripleView;

    open spec fn view(&self) -> TripleView {
        TripleView { subject: self.subject@, predicate: self.predicate@, object: self.object@ }
    }
}

impl PartialEq for Triple {
    fn eq(&self, other: &Self) -> (r: bool) {
        self.subject == other.subject && self.predicate == other.predicate && self.object == other.object
    }
}

impl vstd::std_specs::cmp::PartialEqSpecImpl for Triple {
    open spec fn obeys_eq_spec() -> bool {
        true
    }

    open spec fn eq_spec(&self, other: &Self) -> bool {
        self@ == other@
    }
}

impl Clone for Triple {
    fn clone(&self) -> (r: Self)
        ensures
            r == *self,
    {
        Triple {
            subject: self.subject.clone(),
            predicate: self.predicate.clone(),
            object: self.object.clone(),
        }
    }
}

impl Triple {
    /// The triple of the three given components.
    pub fn new(subject: Entity, predicate: Iri, object: Node) -> (r: Triple)
        ensures
            r == (Triple { subject, predicate, object }),
    {
        Triple { subject, predicate, object }
    }

    /// The triple of copies of the three given components.
    pub fn create(subject: &Entity, predicate: &Iri, object: &Node) -> (r: Triple)
        ensures
            r == (Triple { subject: *subject, predicate: *predicate, object: *object }),
    {
        Triple::new(subject.clone(), predicate.clone(), object.clone())
    }

    /// Where this triple stands relative to `other` in the canonical order.
    pub fn rank(&self, other: &Triple) -> (r: Rank)
        ensures
            r == triple_rank(self@, other@),
    {
        proof {
            reveal(triple_rank);
        }
        match self.subject.rank(&other.subject) {
            Rank::Less => Rank::Less,
            Rank::Greater => Rank::Greater,
            Rank::Equal => match self.predicate.rank(&other.predicate) {
                Rank::Less => Rank::Less,
                Rank::Greater => Rank::Greater,
                Rank::Equal => self.object.rank(&other.object),
            },
        }
    }
}

} // verus!
