use vstd::prelude::*;
use vstd::string::StringExecFns;
use std::sync::Arc;
use crate::model::iri::Iri;
use crate::model::literal::Literal;
use crate::model::order::{entity_rank, node_rank};
use crate::model::{EntityView, NodeView};
use crate::text::{compare_text, text_equals, Rank};

verus! {

/// Anything that can be the object of a triple.
#[derive(Debug, Eq, PartialOrd, Ord)]
pub enum Node {
    Entity(Entity),
    Literal(Literal),
}

/// Anything that can be the subject of a triple.
#[derive(Debug, Eq, PartialOrd, Ord)]
pub enum Entity {
    Iri(Iri),
    BlankNode(BlankNode),
}

/// An anonymous node, known by an id that means something within one graph
/// only. Copies share the id.
#[derive(Debug, Eq, PartialOrd, Ord)]
pub struct BlankNode {
    id: Arc<String>,
}

impl View for BlankNode {
    type V = Seq<char>;

    closed spec fn view(&self) -> Seq<char> {
        self.id@
    }
}

impl View for Entity {
    type V = EntityView;

    open spec fn view(&self) -> EntityView {
        match self {
            Entity::Iri(iri) => EntityView::Iri(iri@),
            Entity::BlankNode(blank_node) => EntityView::BlankNode(blank_node@),
        }
    }
}

impl View for Node {
    type V = NodeView;

    open spec fn view(&self) -> NodeView {
        match self {
            Node::Entity(entity) => NodeView::Entity(entity@),
            Node::Literal(literal) => NodeView::Literal(literal@),
        }
    }
}

impl PartialEq for BlankNode {
    fn eq(&self, other: &Self) -> (r: bool) {
        text_equals(self.id.as_str(), other.id.as_str())
    }
}

impl vstd::std_specs::cmp::PartialEqSpecImpl for BlankNode {
    open spec fn obeys_eq_spec() -> bool {
        true
    }

    open spec fn eq_spec(&self, other: &Self) -> bool {
        self@ == other@
    }
}

impl PartialEq for Entity {
    fn eq(&self, other: &Self) -> (r: bool) {
        match self {
            Entity::Iri(x) => match other {
                Entity::Iri(y) => x == y,
                Entity::BlankNode(_) => false,
            },
            Entity::BlankNode(x) => match other {
                Entity::Iri(_) => false,
                Entity::BlankNode(y) => x == y,
            },
        }
    }
}

impl vstd::std_specs::cmp::PartialEqSpecImpl for Entity {
    open spec fn obeys_eq_spec() -> bool {
        true
    }

    open spec fn eq_spec(&self, other: &Self) -> bool {
        self@ == other@
    }
}

impl PartialEq for Node {
    fn eq(&self, other: &Self) -> (r: bool) {
        match self {
            Node::Entity(x) => match other {
                Node::Entity(y) => x == y,
                Node::Literal(_) => false,
            },
            Node::Literal(x) => match other {
                Node::Entity(_) => false,
                Node::Literal(y) => x == y,
            },
        }
    }
}

impl vstd::std_specs::cmp::PartialEqSpecImpl for Node {
    open spec fn obeys_eq_spec() -> bool {
        true
    }

    open spec fn eq_spec(&self, other: &Self) -> bool {
        self@ == other@
    }
}

impl Clone for BlankNode {
    fn clone(&self) -> (r: Self)
        ensures
            r == *self,
    {
        BlankNode { id: self.id.clone() }
    }
}

impl Clone for Entity {
    fn clone(&self) -> (r: Self)
        ensures
            r == *self,
    {
        match self {
            Entity::Iri(iri) => Entity::Iri(iri.clone()),
            Entity::BlankNode(blank_node) => Entity::BlankNode(blank_node.clone()),
        }
    }
}

impl Clone for Node {
    fn clone(&self) -> (r: Self)
        ensures
            r == *self,
    {
        match self {
            Node::Entity(entity) => Node::Entity(entity.clone()),
            Node::Literal(literal) => Node::Literal(literal.clone()),
        }
    }
}

impl BlankNode {
    /// The blank node with the given id.
    pub fn new(id: String) -> (r: BlankNode)
        ensures
            r@ == id@,
    {
        BlankNode { id: Arc::new(id) }
    }

    /// The id of this blank node.
    pub fn id(&self) -> (r: &str)
        ensures
            r@ == self@,
    {
        self.id.as_str()
    }

    /// Where this blank node stands relative to `other`: by the bytes of the ids.
    pub fn rank(&self, other: &BlankNode) -> (r: Rank)
        ensures
            r == crate::text::text_rank(self@, other@),
    {
        compare_text(self.id.as_str(), other.id.as_str())
    }
}

impl Entity {
    /// Where this entity stands relative to `other` in the order of entities.
    pub fn rank(&self, other: &Entity) -> (r: Rank)
        ensures
            r == entity_rank(self@, other@),
    {
        match self {
            Entity::Iri(x) => match other {
                Entity::Iri(y) => x.rank(y),
                Entity::BlankNode(_) => Rank::Less,
            },
            Entity::BlankNode(x) => match other {
                Entity::Iri(_) => Rank::Greater,
                Entity::BlankNode(y) => x.rank(y),
            },
        }
    }
}

impl Node {
    /// Where this node stands relative to `other` in the order of nodes.
    pub fn rank(&self, other: &Node) -> (r: Rank)
        ensures
            r == node_rank(self@, other@),
    {
        match self {
            Node::Entity(x) => match other {
                Node::Entity(y) => x.rank(y),
                Node::Literal(_) => Rank::Less,
            },
            Node::Literal(x) => match other {
                Node::Entity(_) => Rank::Greater,
                Node::Literal(y) => x.rank(y),
            },
        }
    }
}

impl From<&Node> for Node {
    fn from(node: &Node) -> (r: Node)
        ensures
            r == *node,
    {
        node.clone()
    }
}

impl vstd::std_specs::convert::FromSpecImpl<&Node> for Node {
    open spec fn obeys_from_spec() -> bool {
        true
    }

    open spec fn from_spec(node: &Node) -> Node {
        *node
    }
}

impl From<Entity> for Node {
    fn from(entity: Entity) -> (r: Node)
        ensures
            r == Node::Entity(entity),
    {
        Node::Entity(entity)
    }
}

impl vstd::std_specs::convert::FromSpecImpl<Entity> for Node {
    open spec fn obeys_from_spec() -> bool {
        true
    }

    open spec fn from_spec(entity: Entity) -> Node {
        Node::Entity(entity)
    }
}

impl From<&Entity> for Node {
    fn from(entity: &Entity) -> (r: Node)
        ensures
            r == Node::Entity(*entity),
    {
        Node::Entity(entity.clone())
    }
}

impl vstd::std_specs::convert::FromSpecImpl<&Entity> for Node {
    open spec fn obeys_from_spec() -> bool {
        true
    }

    open spec fn from_spec(entity: &Entity) -> Node {
        Node::Entity(*entity)
    }
}

impl From<Literal> for Node {
    fn from(literal: Literal) -> (r: Node)
        ensures
            r == Node::Literal(literal),
    {
        Node::Literal(literal)
    }
}

impl vstd::std_specs::convert::FromSpecImpl<Literal> for Node {
    open spec fn obeys_from_spec() -> bool {
        true
    }

    open spec fn from_spec(literal: Literal) -> Node {
        Node::Literal(literal)
    }
}

impl From<&Literal> for Node {
    fn from(literal: &Literal) -> (r: Node)
        ensures
            r == Node::Literal(*literal),
    {
        Node::Literal(literal.clone())
    }
}

impl vstd::std_specs::convert::FromSpecImpl<&Literal> for Node {
    open spec fn obeys_from_spec() -> bool {
        true
    }

    open spec fn from_spec(literal: &Literal) -> Node {
        Node::Literal(*literal)
    }
}

impl From<Iri> for Node {
    fn from(iri: Iri) -> (r: Node)
        ensures
            r == Node::Entity(Entity::Iri(iri)),
    {
        Node::Entity(Entity::Iri(iri))
    }
}

impl vstd::std_specs::convert::FromSpecImpl<Iri> for Node {
    open spec fn obeys_from_spec() -> bool {
        true
    }

    open spec fn from_spec(iri: Iri) -> Node {
        Node::Entity(Entity::Iri(iri))
    }
}

impl From<&Iri> for Node {
    fn from(iri: &Iri) -> (r: Node)
        ensures
            r == Node::Entity(Entity::Iri(*iri)),
    {
        Node::Entity(Entity::Iri(iri.clone()))
    }
}

impl vstd::std_specs::convert::FromSpecImpl<&Iri> for Node {
    open spec fn obeys_from_spec() -> bool {
        true
    }

    open spec fn from_spec(iri: &Iri) -> Node {
        Node::Entity(Entity::Iri(*iri))
    }
}

impl From<&Entity> for Entity {
    fn from(entity: &Entity) -> (r: Entity)
        ensures
            r == *entity,
    {
        entity.clone()
    }
}

impl vstd::std_specs::convert::FromSpecImpl<&Entity> for Entity {
    open spec fn obeys_from_spec() -> bool {
        true
    }

    open spec fn from_spec(entity: &Entity) -> Entity {
        *entity
    }
}

impl From<Iri> for Entity {
    fn from(iri: Iri) -> (r: Entity)
        ensures
            r == Entity::Iri(iri),
    {
        Entity::Iri(iri)
    }
}

impl vstd::std_specs::convert::FromSpecImpl<Iri> for Entity {
    open spec fn obeys_from_spec() -> bool {
        true
    }

    open spec fn from_spec(iri: Iri) -> Entity {
        Entity::Iri(iri)
    }
}

impl From<&Iri> for Entity {
    fn from(iri: &Iri) -> (r: Entity)
        ensures
            r == Entity::Iri(*iri),
    {
        Entity::Iri(iri.clone())
    }
}

impl vstd::std_specs::convert::FromSpecImpl<&Iri> for Entity {
    open spec fn obeys_from_spec() -> bool {
        true
    }

    open spec fn from_spec(iri: &Iri) -> Entity {
        Entity::Iri(*iri)
    }
}

impl From<BlankNode> for Entity {
    fn from(blank_node: BlankNode) -> (r: Entity)
        ensures
            r == Entity::BlankNode(blank_node),
    {
        Entity::BlankNode(blank_node)
    }
}

impl vstd::std_specs::convert::FromSpecImpl<BlankNode> for Entity {
    open spec fn obeys_from_spec() -> bool {
        true
    }

    open spec fn from_spec(blank_node: BlankNode) -> Entity {
        Entity::BlankNode(blank_node)
    }
}

impl From<&BlankNode> for Entity {
    fn from(blank_node: &BlankNode) -> (r: Entity)
        ensures
            r == Entity::BlankNode(*blank_node),
    {
        Entity::BlankNode(blank_node.clone())
    }
}

impl vstd::std_specs::convert::FromSpecImpl<&BlankNode> for Entity {
    open spec fn obeys_from_spec() -> bool {
        true
    }

    open spec fn from_spec(blank_node: &BlankNode) -> Entity {
        Entity::BlankNode(*blank_node)
    }
}

impl From<&str> for BlankNode {
    fn from(id: &str) -> (r: BlankNode)
        ensures
            r@ == id@,
    {
        BlankNode { id: Arc::new(String::from_str(id)) }
    }
}

impl vstd::std_specs::convert::FromSpecImpl<&str> for BlankNode {
    open spec fn obeys_from_spec() -> bool {
        false
    }

    open spec fn from_spec(id: &str) -> BlankNode {
        arbitrary()
    }
}

impl From<String> for BlankNode {
    fn from(id: String) -> (r: BlankNode)
        ensures
            r@ == id@,
    {
        BlankNode::new(id)
    }
}

impl vstd::std_specs::convert::FromSpecImpl<String> for BlankNode {
    open spec fn obeys_from_spec() -> bool {
        false
    }

    open spec fn from_spec(id: String) -> BlankNode {
        arbitrary()
    }
}

} // verus!
