use vstd::prelude::*;
use crate::model::graph::{
    graph_wf, insert_triple, lookup_prefix, prefixes_sorted, triples_sorted, GraphView,
};
use crate::model::graph_laws::{lemma_bind_prefix_sorted, lemma_insert_triple_sorted};
use crate::model::{EntityView, LiteralTagView, LiteralView, NodeView, TripleView};
use crate::read::event::{AttributeView, EventView, NameView};
use crate::read::machine::{
    FrameView, StateView, attribute_value, base_until_error, bind_all, blank_node_id,
    blank_nodes, both_tags_message, characters, frame_predicate, frame_subject, frame_tag,
    graph_with_triple, prefix_conflict_message, run, stack_wf, start_tag, step_spec, tag_iri,
    top_level_attributes, unexpected_characters_message,
};
use crate::text::{decimal, lemma_decimal_value};
use crate::vocabs::{rdf, xsd};

verus! {

/// The prefix of a tag as the prefix table knows it: the empty text where the
/// tag has none.
pub open spec fn prefix_of(name: NameView) -> Seq<char> {
    match name.prefix {
        Some(p) => p,
        None => Seq::empty(),
    }
}

/// A tag whose prefix is bound to another namespace than the tag's own is
/// rejected wherever it stands inside the root element, however deep; a tag
/// whose prefix is bound to the tag's own namespace leaves the prefix table as
/// it is.
pub proof fn lemma_prefix_conflict(
    g: GraphView,
    stack: Seq<FrameView>,
    n: nat,
    name: NameView,
    attributes: Seq<AttributeView>,
    namespace: Seq<(Seq<char>, Seq<char>)>,
)
    requires
        name.namespace is Some,
        lookup_prefix(g.prefixes, prefix_of(name)) is Some,
    ensures
        lookup_prefix(g.prefixes, prefix_of(name))->0 != name.namespace->0 ==> {
            let message = prefix_conflict_message(
                prefix_of(name),
                name.namespace->0,
                lookup_prefix(g.prefixes, prefix_of(name))->0,
            );
            &&& tag_iri(g, name) == Err::<(GraphView, Seq<char>), Seq<char>>(message)
            &&& start_tag(g, stack, n, name, attributes) == Err::<
                (GraphView, Seq<FrameView>, nat),
                Seq<char>,
            >(message)
            &&& step_spec(
                g,
                StateView::Rdf { stack, n_b_nodes: n },
                EventView::StartElement { name, attributes, namespace },
            ) == Err::<(GraphView, StateView), Seq<char>>(message)
        },
        lookup_prefix(g.prefixes, prefix_of(name))->0 == name.namespace->0 ==> tag_iri(g, name)
            == Ok::<(GraphView, Seq<char>), Seq<char>>((g, name.namespace->0 + name.local_name)),
{
}

/// A property element with both a language and a datatype, and no
/// `rdf:resource`, is rejected, where its tag itself is accepted.
pub proof fn lemma_both_tags_rejected(
    g: GraphView,
    stack: Seq<FrameView>,
    n: nat,
    name: NameView,
    attributes: Seq<AttributeView>,
)
    requires
        stack.len() > 0,
        stack.last() is S,
        tag_iri(g, name) is Ok,
        attribute_value(attributes, "resource"@, rdf::namespace_text()) is None,
        attribute_value(attributes, "lang"@, rdf::namespace_text()) is Some,
        attribute_value(attributes, "datatype"@, rdf::namespace_text()) is Some,
    ensures
        start_tag(g, stack, n, name, attributes) == Err::<
            (GraphView, Seq<FrameView>, nat),
            Seq<char>,
        >(both_tags_message(name)),
{
}

/// A property element with neither a language, a datatype nor `rdf:resource`
/// holds no tag, and character data under it then gives its subject a literal
/// of the type `xsd:string`.
pub proof fn lemma_untagged_text_is_string(
    g: GraphView,
    stack: Seq<FrameView>,
    n: nat,
    name: NameView,
    attributes: Seq<AttributeView>,
    text: Seq<char>,
)
    requires
        stack_wf(stack),
        stack.len() > 0,
        stack.last() is S,
        tag_iri(g, name) is Ok,
        attribute_value(attributes, "resource"@, rdf::namespace_text()) is None,
        attribute_value(attributes, "lang"@, rdf::namespace_text()) is None,
        attribute_value(attributes, "datatype"@, rdf::namespace_text()) is None,
    ensures
        start_tag(g, stack, n, name, attributes) is Ok,
        ({
            let (g1, s1, m) = start_tag(g, stack, n, name, attributes)->Ok_0;
            let predicate = tag_iri(g, name)->Ok_0.1;
            &&& m == n
            &&& s1 == stack.push(FrameView::P { predicate, literal_tag: None, satisfied: false })
            &&& characters(g1, StateView::Rdf { stack: s1, n_b_nodes: m }, text) is Ok
            &&& characters(g1, StateView::Rdf { stack: s1, n_b_nodes: m }, text)->Ok_0.0
                == graph_with_triple(
                g1,
                frame_subject(stack.last()),
                predicate,
                NodeView::Literal(
                    LiteralView { string: text, literal_tag: LiteralTagView::Type(xsd::string_text()) },
                ),
            )
        }),
{
    let predicate = tag_iri(g, name)->Ok_0.1;
    let s1 = stack.push(FrameView::P { predicate, literal_tag: None, satisfied: false });
    assert(s1.last() == FrameView::P { predicate, literal_tag: None, satisfied: false });
    assert(s1[s1.len() - 2] == stack.last());
}

/// Two blank nodes made at different counts have different ids.
pub proof fn lemma_blank_node_ids_differ(n: nat, m: nat)
    requires
        n != m,
    ensures
        blank_node_id(n) != blank_node_id(m),
{
    lemma_decimal_value(n);
    lemma_decimal_value(m);
    if blank_node_id(n) == blank_node_id(m) {
        let a = blank_node_id(n);
        let b = blank_node_id(m);
        let k = "node"@.len() as int;
        assert(a.subrange(k, a.len() as int) =~= decimal(n));
        assert(b.subrange(k, b.len() as int) =~= decimal(m));
    }
}

/// A resource element without `rdf:about` is the blank node whose id is `node`
/// and the count of those made before, and the count goes up by one; with
/// `rdf:about` the count stays. Either way the new resource is the innermost
/// open element.
pub proof fn lemma_blank_node_allocation(
    g: GraphView,
    stack: Seq<FrameView>,
    n: nat,
    name: NameView,
    attributes: Seq<AttributeView>,
)
    requires
        stack.len() == 0 || stack.last() is P,
        tag_iri(g, name) is Ok,
    ensures
        start_tag(g, stack, n, name, attributes) is Ok,
        ({
            let (g1, s1, m) = start_tag(g, stack, n, name, attributes)->Ok_0;
            let about = attribute_value(attributes, "about"@, rdf::namespace_text());
            &&& about is None ==> m == n + 1 && s1 == stack.push(
                FrameView::S { subject: EntityView::BlankNode(blank_node_id(n)) },
            )
            &&& about is Some ==> m == n && s1 == stack.push(
                FrameView::S { subject: EntityView::Iri(about->0) },
            )
        }),
{
}

/// A property element with `rdf:resource` gives its subject one triple, whose
/// object is the IRI that the attribute holds, and no other; it makes no blank
/// node, and the property on top of the stack holds no tag and is satisfied.
/// Character data under it is then an error.
pub proof fn lemma_resource_attribute(
    g: GraphView,
    stack: Seq<FrameView>,
    n: nat,
    name: NameView,
    attributes: Seq<AttributeView>,
    text: Seq<char>,
)
    requires
        graph_wf(g),
        stack.len() > 0,
        stack.last() is S,
        tag_iri(g, name) is Ok,
        attribute_value(attributes, "resource"@, rdf::namespace_text()) is Some,
    ensures
        start_tag(g, stack, n, name, attributes) is Ok,
        ({
            let (g1, s1, m) = start_tag(g, stack, n, name, attributes)->Ok_0;
            let predicate = tag_iri(g, name)->Ok_0.1;
            let object = attribute_value(attributes, "resource"@, rdf::namespace_text())->0;
            let triple = TripleView {
                subject: frame_subject(stack.last()),
                predicate,
                object: NodeView::Entity(EntityView::Iri(object)),
            };
            &&& m == n
            &&& s1 == stack.push(FrameView::P { predicate, literal_tag: None, satisfied: true })
            &&& forall|x: TripleView| #[trigger]
                g1.triples.contains(x) <==> (x == triple || g.triples.contains(x))
            &&& characters(g1, StateView::Rdf { stack: s1, n_b_nodes: m }, text) == Err::<
                (GraphView, StateView),
                Seq<char>,
            >(unexpected_characters_message(text))
        }),
{
    let (g0, predicate) = tag_iri(g, name)->Ok_0;
    let object = attribute_value(attributes, "resource"@, rdf::namespace_text())->0;
    let triple = TripleView {
        subject: frame_subject(stack.last()),
        predicate,
        object: NodeView::Entity(EntityView::Iri(object)),
    };
    assert(g0.triples == g.triples);
    lemma_insert_triple_sorted(g.triples, triple);
    let s1 = stack.push(FrameView::P { predicate, literal_tag: None, satisfied: true });
    assert(s1.last() == FrameView::P { predicate, literal_tag: None, satisfied: true });
}

/// A resource element gives the graph the triple of its class and, under a
/// property, the triple that links it to the resource around it, with the new
/// resource as the subject of both; nothing else is added.
pub proof fn lemma_resource_triples(
    g: GraphView,
    stack: Seq<FrameView>,
    n: nat,
    name: NameView,
    attributes: Seq<AttributeView>,
)
    requires
        graph_wf(g),
        stack_wf(stack),
        stack.len() == 0 || stack.last() is P,
        tag_iri(g, name) is Ok,
    ensures
        start_tag(g, stack, n, name, attributes) is Ok,
        ({
            let (g1, s1, m) = start_tag(g, stack, n, name, attributes)->Ok_0;
            let class = tag_iri(g, name)->Ok_0.1;
            let entity = frame_subject(s1.last());
            let typed = TripleView {
                subject: entity,
                predicate: rdf::type_text(),
                object: NodeView::Entity(EntityView::Iri(class)),
            };
            let linked = TripleView {
                subject: entity,
                predicate: frame_predicate(stack.last()),
                object: NodeView::Entity(frame_subject(stack[stack.len() - 2])),
            };
            &&& s1 == stack.push(FrameView::S { subject: entity })
            &&& entity == match attribute_value(attributes, "about"@, rdf::namespace_text()) {
                Some(iri) => EntityView::Iri(iri),
                None => EntityView::BlankNode(blank_node_id(n)),
            }
            &&& forall|x: TripleView| #[trigger]
                g1.triples.contains(x) <==> (x == typed || (stack.len() > 0 && x == linked)
                    || g.triples.contains(x))
        }),
{
    let (g0, class) = tag_iri(g, name)->Ok_0;
    let (g1, s1, m) = start_tag(g, stack, n, name, attributes)->Ok_0;
    let entity = match attribute_value(attributes, "about"@, rdf::namespace_text()) {
        Some(iri) => EntityView::Iri(iri),
        None => EntityView::BlankNode(blank_node_id(n)),
    };
    assert(s1.last() == FrameView::S { subject: entity });
    let typed = TripleView {
        subject: entity,
        predicate: rdf::type_text(),
        object: NodeView::Entity(EntityView::Iri(class)),
    };
    assert(g0.triples == g.triples);
    lemma_insert_triple_sorted(g.triples, typed);
    if stack.len() > 0 {
        assert(stack.len() >= 2) by {
            assert(stack[stack.len() - 1] is P);
        }
        let linked = TripleView {
            subject: entity,
            predicate: frame_predicate(stack.last()),
            object: NodeView::Entity(frame_subject(stack[stack.len() - 2])),
        };
        lemma_insert_triple_sorted(insert_triple(g.triples, typed), linked);
    }
}

/// The count of blank nodes never goes down while a parse stays inside the
/// root element, and one event takes it up by one at most.
pub proof fn lemma_blank_node_count(g: GraphView, st: StateView, event: EventView)
    requires
        st is Rdf,
        step_spec(g, st, event) is Ok,
    ensures
        step_spec(g, st, event)->Ok_0.1 is Rdf ==> blank_nodes(st) <= blank_nodes(
            step_spec(g, st, event)->Ok_0.1,
        ) <= blank_nodes(st) + 1,
{
}

/// Whether an event, taken in a state, opens a resource without `rdf:about`:
/// one that is a new blank node.
pub open spec fn makes_blank_node(st: StateView, event: EventView) -> bool {
    match st {
        StateView::Rdf { stack, n_b_nodes } => match event {
            EventView::StartElement { name, attributes, namespace } => !(stack.len() > 0
                && stack.last() is S) && attribute_value(
                attributes,
                "about"@,
                rdf::namespace_text(),
            ) is None,
            _ => false,
        },
        _ => false,
    }
}

/// The number of blank nodes that the first `n` events of a parse have made:
/// the number of resource elements without `rdf:about` among those that were
/// taken.
pub open spec fn blank_nodes_made(g: GraphView, st: StateView, events: Seq<EventView>, n: int) -> nat
    decreases n,
{
    if n <= 0 {
        0
    } else {
        let before = blank_nodes_made(g, st, events, n - 1);
        match run(g, st, events, n - 1) {
            Ok((g1, st1)) => if makes_blank_node(st1, events[n - 1]) && step_spec(
                g1,
                st1,
                events[n - 1],
            ) is Ok {
                before + 1
            } else {
                before
            },
            Err(message) => before,
        }
    }
}

/// Over a whole document the counter of blank nodes never resets: inside the
/// root element it is the number of blank nodes that the events so far have
/// made, and before the root element none has been made.
pub proof fn lemma_blank_nodes_counted(g: GraphView, events: Seq<EventView>, n: int)
    requires
        0 <= n,
        run(g, StateView::PreStart, events, n) is Ok,
    ensures
        ({
            let st = run(g, StateView::PreStart, events, n)->Ok_0.1;
            let made = blank_nodes_made(g, StateView::PreStart, events, n);
            &&& st is Rdf ==> blank_nodes(st) == made
            &&& st is PreStart || st is Started ==> made == 0
        }),
    decreases n,
{
    if n > 0 {
        lemma_blank_nodes_counted(g, events, n - 1);
    }
}

/// The number of blank nodes made only grows with the events taken.
pub proof fn lemma_blank_nodes_made_grow(
    g: GraphView,
    st: StateView,
    events: Seq<EventView>,
    i: int,
    j: int,
)
    requires
        i <= j,
    ensures
        blank_nodes_made(g, st, events, i) <= blank_nodes_made(g, st, events, j),
    decreases j - i,
{
    if i < j {
        lemma_blank_nodes_made_grow(g, st, events, i, j - 1);
    }
}

/// In a document, the resource element without `rdf:about` that comes after
/// `k` others is the blank node `node` and `k`: the event at position `j` that
/// makes a blank node makes the one numbered by those made before it, and that
/// node is then the innermost open element.
pub proof fn lemma_blank_node_numbered(g: GraphView, events: Seq<EventView>, j: int)
    requires
        0 <= j,
        run(g, StateView::PreStart, events, j + 1) is Ok,
        makes_blank_node(run(g, StateView::PreStart, events, j)->Ok_0.1, events[j]),
    ensures
        ({
            let st = run(g, StateView::PreStart, events, j + 1)->Ok_0.1;
            let k = blank_nodes_made(g, StateView::PreStart, events, j);
            &&& blank_nodes_made(g, StateView::PreStart, events, j + 1) == k + 1
            &&& st matches StateView::Rdf { stack, n_b_nodes } && stack.len() > 0 && stack.last()
                == (FrameView::S { subject: EntityView::BlankNode(blank_node_id(k)) })
        }),
{
    lemma_blank_nodes_counted(g, events, j);
    let (g1, st1) = run(g, StateView::PreStart, events, j)->Ok_0;
    match st1 {
        StateView::Rdf { stack, n_b_nodes } => match events[j] {
            EventView::StartElement { name, attributes, namespace } => {
                let s1 = stack.push(
                    FrameView::S { subject: EntityView::BlankNode(blank_node_id(n_b_nodes)) },
                );
                assert(s1.last() == FrameView::S {
                    subject: EntityView::BlankNode(blank_node_id(n_b_nodes)),
                });
            },
            _ => {},
        },
        _ => {},
    }
}

/// In a document, two resource elements without `rdf:about` never get the same
/// blank node.
pub proof fn lemma_blank_nodes_distinct(g: GraphView, events: Seq<EventView>, i: int, j: int)
    requires
        0 <= i < j,
        run(g, StateView::PreStart, events, j + 1) is Ok,
        makes_blank_node(run(g, StateView::PreStart, events, i)->Ok_0.1, events[i]),
        makes_blank_node(run(g, StateView::PreStart, events, j)->Ok_0.1, events[j]),
    ensures
        blank_node_id(blank_nodes_made(g, StateView::PreStart, events, i)) != blank_node_id(
            blank_nodes_made(g, StateView::PreStart, events, j),
        ),
{
    lemma_run_ok_before(g, StateView::PreStart, events, i + 1, j + 1);
    lemma_blank_node_numbered(g, events, i);
    lemma_blank_nodes_made_grow(g, StateView::PreStart, events, i + 1, j);
    lemma_blank_node_ids_differ(
        blank_nodes_made(g, StateView::PreStart, events, i),
        blank_nodes_made(g, StateView::PreStart, events, j),
    );
}

/// A parse that has taken `n` events has taken every number of them before.
pub proof fn lemma_run_ok_before(g: GraphView, st: StateView, events: Seq<EventView>, k: int, n: int)
    requires
        0 <= k <= n,
        run(g, st, events, n) is Ok,
    ensures
        run(g, st, events, k) is Ok,
{
    if run(g, st, events, k) is Err {
        lemma_run_error(g, st, events, k, n);
    }
}

/// Whether `id` is the id of one of the first `k` blank nodes.
pub open spec fn known_blank(id: Seq<char>, k: nat) -> bool {
    exists|i: nat| i < k && id == #[trigger] blank_node_id(i)
}

/// Whether an entity is an IRI or one of the first `k` blank nodes.
pub open spec fn entity_known(e: EntityView, k: nat) -> bool {
    match e {
        EntityView::Iri(iri) => true,
        EntityView::BlankNode(id) => known_blank(id, k),
    }
}

/// Whether the blank nodes that a triple speaks of, as its subject or as its
/// object, are among the first `k`.
pub open spec fn triple_known(t: TripleView, k: nat) -> bool {
    entity_known(t.subject, k) && match t.object {
        NodeView::Entity(e) => entity_known(e, k),
        NodeView::Literal(literal) => true,
    }
}

/// Whether the triples hold `e` as a subject.
pub open spec fn has_subject(ts: Seq<TripleView>, e: EntityView) -> bool {
    exists|x: TripleView| #[trigger] ts.contains(x) && x.subject == e
}

/// Whether the blank nodes of the triples are exactly the first `k`: they
/// speak of no other, and each of the `k` is the subject of one.
pub open spec fn triples_within(ts: Seq<TripleView>, k: nat) -> bool {
    &&& forall|x: TripleView| #[trigger] ts.contains(x) ==> triple_known(x, k)
    &&& forall|i: nat| i < k ==> has_subject(ts, EntityView::BlankNode(#[trigger] blank_node_id(i)))
}

/// Whether the blank nodes among the open resources are among the first `k`.
pub open spec fn stack_within(stack: Seq<FrameView>, k: nat) -> bool {
    forall|f: int| 0 <= f < stack.len() && (#[trigger] stack[f]) is S ==> entity_known(
        frame_subject(stack[f]),
        k,
    )
}

/// Whether the blank nodes of a state's open resources are among the first `k`.
pub open spec fn state_within(st: StateView, k: nat) -> bool {
    match st {
        StateView::Rdf { stack, n_b_nodes } => stack_within(stack, k),
        _ => true,
    }
}

/// One of the first `k` blank nodes is one of the first `k + 1`.
pub(crate) proof fn lemma_known_more(e: EntityView, k: nat)
    requires
        entity_known(e, k),
    ensures
        entity_known(e, k + 1),
{
    match e {
        EntityView::BlankNode(id) => {
            let i = choose|i: nat| i < k && id == #[trigger] blank_node_id(i);
            assert(i < k + 1 && id == blank_node_id(i));
        },
        _ => {},
    }
}

/// What speaks of the first `k` blank nodes alone speaks of the first `k + 1`
/// alone.
pub(crate) proof fn lemma_within_more(ts: Seq<TripleView>, stack: Seq<FrameView>, k: nat)
    requires
        triples_within(ts, k),
        stack_within(stack, k),
    ensures
        forall|x: TripleView| #[trigger] ts.contains(x) ==> triple_known(x, k + 1),
        forall|i: nat| i < k ==> has_subject(ts, EntityView::BlankNode(#[trigger] blank_node_id(i))),
        stack_within(stack, k + 1),
{
    assert forall|x: TripleView| #[trigger] ts.contains(x) implies triple_known(x, k + 1) by {
        lemma_known_more(x.subject, k);
        match x.object {
            NodeView::Entity(e) => {
                lemma_known_more(e, k);
            },
            _ => {},
        }
    }
    assert forall|f: int| 0 <= f < stack.len() && (#[trigger] stack[f]) is S implies entity_known(
        frame_subject(stack[f]),
        k + 1,
    ) by {
        lemma_known_more(frame_subject(stack[f]), k);
    }
}

/// One more triple that speaks of known blank nodes alone keeps the triples
/// speaking of them alone, keeps every subject, and has its own.
pub(crate) proof fn lemma_triple_within(ts: Seq<TripleView>, t: TripleView, k: nat)
    requires
        triples_sorted(ts),
        forall|x: TripleView| #[trigger] ts.contains(x) ==> triple_known(x, k),
        triple_known(t, k),
    ensures
        forall|x: TripleView| #[trigger] insert_triple(ts, t).contains(x) ==> triple_known(x, k),
        forall|e: EntityView| has_subject(ts, e) ==> has_subject(insert_triple(ts, t), e),
        has_subject(insert_triple(ts, t), t.subject),
{
    lemma_insert_triple_sorted(ts, t);
    let r = insert_triple(ts, t);
    assert forall|e: EntityView| has_subject(ts, e) implies has_subject(r, e) by {
        let x = choose|x: TripleView| #[trigger] ts.contains(x) && x.subject == e;
        assert(r.contains(x));
    }
    assert(r.contains(t));
}

/// One event keeps the blank nodes of the graph exactly those that were made:
/// where the graph and the open resources speak of the first `k` blank nodes
/// and of no other, and `k` is the count inside the root element, they then
/// speak of the first `k`, and of one more where the event made one.
pub proof fn lemma_step_keeps_blank_nodes(g: GraphView, st: StateView, event: EventView, k: nat)
    requires
        graph_wf(g),
        state_wf(st),
        step_spec(g, st, event) is Ok,
        triples_within(g.triples, k),
        state_within(st, k),
        st is Rdf ==> blank_nodes(st) == k,
    ensures
        ({
            let (g1, st1) = step_spec(g, st, event)->Ok_0;
            let k1 = if makes_blank_node(st, event) {
                k + 1
            } else {
                k
            };
            triples_within(g1.triples, k1) && state_within(st1, k1)
        }),
{
    let (g1, st1) = step_spec(g, st, event)->Ok_0;
    match event {
        EventView::StartElement { name, attributes, namespace } => match st {
            StateView::Rdf { stack, n_b_nodes } => {
                let (g0, iri) = tag_iri(g, name)->Ok_0;
                assert(g0.triples == g.triples);
                if stack.len() > 0 && stack.last() is S {
                    let object = attribute_value(attributes, "resource"@, rdf::namespace_text());
                    if object is Some {
                        let t = TripleView {
                            subject: frame_subject(stack.last()),
                            predicate: iri,
                            object: NodeView::Entity(EntityView::Iri(object->0)),
                        };
                        lemma_triple_within(g.triples, t, k);
                    }
                    let s1 = st1->stack;
                    assert forall|f: int| 0 <= f < s1.len() && (#[trigger] s1[f]) is S implies entity_known(
                        frame_subject(s1[f]),
                        k,
                    ) by {
                        assert(s1[f] == stack[f]);
                    }
                } else {
                    let about = attribute_value(attributes, "about"@, rdf::namespace_text());
                    let entity = match about {
                        Some(i) => EntityView::Iri(i),
                        None => EntityView::BlankNode(blank_node_id(k)),
                    };
                    let k1 = if about is None {
                        k + 1
                    } else {
                        k
                    };
                    if about is None {
                        lemma_within_more(g.triples, stack, k);
                        assert(known_blank(blank_node_id(k), k1));
                    }
                    assert(stack_within(stack, k1));
                    let typed = TripleView {
                        subject: entity,
                        predicate: rdf::type_text(),
                        object: NodeView::Entity(EntityView::Iri(iri)),
                    };
                    lemma_triple_within(g.triples, typed, k1);
                    let ts2 = insert_triple(g.triples, typed);
                    lemma_insert_triple_sorted(g.triples, typed);
                    if stack.len() >= 2 {
                        assert(stack[stack.len() - 2] is S);
                        let linked = TripleView {
                            subject: entity,
                            predicate: frame_predicate(stack.last()),
                            object: NodeView::Entity(frame_subject(stack[stack.len() - 2])),
                        };
                        lemma_triple_within(ts2, linked, k1);
                    }
                    let s1 = st1->stack;
                    assert forall|f: int| 0 <= f < s1.len() && (#[trigger] s1[f]) is S implies entity_known(
                        frame_subject(s1[f]),
                        k1,
                    ) by {
                        if f < stack.len() {
                            assert(s1[f] == stack[f]);
                        }
                    }
                }
            },
            _ => {},
        },
        EventView::EndElement { name } => match st {
            StateView::Rdf { stack, n_b_nodes } => {
                if stack.len() > 0 {
                    let s1 = st1->stack;
                    assert forall|f: int| 0 <= f < s1.len() && (#[trigger] s1[f]) is S implies entity_known(
                        frame_subject(s1[f]),
                        k,
                    ) by {
                        assert(s1[f] == stack[f]);
                    }
                }
            },
            _ => {},
        },
        EventView::CData(text) => {
            lemma_characters_keep_blank_nodes(g, st, text, k);
        },
        EventView::Characters(text) => {
            lemma_characters_keep_blank_nodes(g, st, text, k);
        },
        _ => {},
    }
}

/// Character data keeps the blank nodes of the graph and of the open
/// resources among those that were made.
pub(crate) proof fn lemma_characters_keep_blank_nodes(g: GraphView, st: StateView, text: Seq<char>, k: nat)
    requires
        graph_wf(g),
        state_wf(st),
        characters(g, st, text) is Ok,
        triples_within(g.triples, k),
        state_within(st, k),
    ensures
        triples_within(characters(g, st, text)->Ok_0.0.triples, k),
        state_within(characters(g, st, text)->Ok_0.1, k),
{
    match st {
        StateView::Rdf { stack, n_b_nodes } => {
            let literal_tag = match frame_tag(stack.last()) {
                Some(tag) => tag,
                None => LiteralTagView::Type(xsd::string_text()),
            };
            assert(stack[stack.len() - 2] is S);
            let t = TripleView {
                subject: frame_subject(stack[stack.len() - 2]),
                predicate: frame_predicate(stack.last()),
                object: NodeView::Literal(LiteralView { string: text, literal_tag }),
            };
            lemma_triple_within(g.triples, t, k);
            let s1 = characters(g, st, text)->Ok_0.1->stack;
            assert forall|f: int| 0 <= f < s1.len() && (#[trigger] s1[f]) is S implies entity_known(
                frame_subject(s1[f]),
                k,
            ) by {
                if f < stack.len() - 1 {
                    assert(s1[f] == stack[f]);
                }
            }
        },
        _ => {},
    }
}

/// The blank nodes of a document that was read from an empty graph are exactly
/// `node0`, `node1` and so on up to the number of resource elements without
/// `rdf:about`: the graph speaks of no other blank node, and each of these is
/// the subject of a triple in it.
pub proof fn lemma_blank_nodes_of_document(g: GraphView, events: Seq<EventView>, n: int)
    requires
        0 <= n,
        graph_wf(g),
        g.triples.len() == 0,
        run(g, StateView::PreStart, events, n) is Ok,
    ensures
        ({
            let (g1, st1) = run(g, StateView::PreStart, events, n)->Ok_0;
            let k = blank_nodes_made(g, StateView::PreStart, events, n);
            triples_within(g1.triples, k) && state_within(st1, k)
        }),
    decreases n,
{
    if n > 0 {
        lemma_run_ok_before(g, StateView::PreStart, events, n - 1, n);
        lemma_blank_nodes_of_document(g, events, n - 1);
        lemma_blank_nodes_counted(g, events, n - 1);
        lemma_run_keeps_order(g, StateView::PreStart, events, n - 1);
        let (g0, st0) = run(g, StateView::PreStart, events, n - 1)->Ok_0;
        lemma_step_keeps_blank_nodes(
            g0,
            st0,
            events[n - 1],
            blank_nodes_made(g, StateView::PreStart, events, n - 1),
        );
    }
}

/// Whether a state's stack, where it has one, alternates as it should.
pub open spec fn state_wf(st: StateView) -> bool {
    match st {
        StateView::Rdf { stack, n_b_nodes } => stack_wf(stack),
        _ => true,
    }
}

/// Looking up a tag's prefix keeps a graph well formed.
proof fn lemma_tag_iri_keeps_order(g: GraphView, name: NameView)
    requires
        graph_wf(g),
        tag_iri(g, name) is Ok,
    ensures
        graph_wf(tag_iri(g, name)->Ok_0.0),
{
    if name.namespace is Some {
        lemma_bind_prefix_sorted(g.prefixes, prefix_of(name), name.namespace->0);
    }
}

/// One more triple keeps a graph well formed.
proof fn lemma_triple_keeps_order(g: GraphView, subject: EntityView, predicate: Seq<char>, object: NodeView)
    requires
        graph_wf(g),
    ensures
        graph_wf(graph_with_triple(g, subject, predicate, object)),
{
    lemma_insert_triple_sorted(g.triples, TripleView { subject, predicate, object });
}

/// Binding a list of declarations keeps the prefix table in order.
proof fn lemma_bind_all_keeps_order(
    p: Seq<(Seq<char>, Seq<char>)>,
    mappings: Seq<(Seq<char>, Seq<char>)>,
    n: int,
)
    requires
        prefixes_sorted(p),
    ensures
        prefixes_sorted(bind_all(p, mappings, n)),
    decreases n,
{
    if n > 0 {
        lemma_bind_all_keeps_order(p, mappings, n - 1);
        lemma_bind_prefix_sorted(bind_all(p, mappings, n - 1), mappings[n - 1].0, mappings[n - 1].1);
    }
}

/// One event keeps a graph well formed, its triples in canonical order, and
/// keeps the open elements alternating between resources and properties.
pub proof fn lemma_step_keeps_order(g: GraphView, st: StateView, event: EventView)
    requires
        graph_wf(g),
        state_wf(st),
        step_spec(g, st, event) is Ok,
    ensures
        graph_wf(step_spec(g, st, event)->Ok_0.0),
        state_wf(step_spec(g, st, event)->Ok_0.1),
{
    match event {
        EventView::StartElement { name, attributes, namespace } => match st {
            StateView::Started => {
                lemma_bind_all_keeps_order(g.prefixes, namespace, namespace.len() as int);
            },
            StateView::Rdf { stack, n_b_nodes } => {
                lemma_tag_iri_keeps_order(g, name);
                let g1 = tag_iri(g, name)->Ok_0.0;
                let iri = tag_iri(g, name)->Ok_0.1;
                if stack.len() > 0 && stack.last() is S {
                    let object = attribute_value(attributes, "resource"@, rdf::namespace_text());
                    if object is Some {
                        lemma_triple_keeps_order(
                            g1,
                            frame_subject(stack.last()),
                            iri,
                            NodeView::Entity(EntityView::Iri(object->0)),
                        );
                    }
                } else {
                    let about = attribute_value(attributes, "about"@, rdf::namespace_text());
                    let entity = match about {
                        Some(i) => EntityView::Iri(i),
                        None => EntityView::BlankNode(blank_node_id(n_b_nodes)),
                    };
                    lemma_triple_keeps_order(
                        g1,
                        entity,
                        rdf::type_text(),
                        NodeView::Entity(EntityView::Iri(iri)),
                    );
                    let g2 = graph_with_triple(
                        g1,
                        entity,
                        rdf::type_text(),
                        NodeView::Entity(EntityView::Iri(iri)),
                    );
                    if stack.len() >= 2 {
                        lemma_triple_keeps_order(
                            g2,
                            entity,
                            frame_predicate(stack.last()),
                            NodeView::Entity(frame_subject(stack[stack.len() - 2])),
                        );
                    }
                }
            },
            _ => {},
        },
        EventView::CData(text) => {
            lemma_characters_keep_order(g, st, text);
        },
        EventView::Characters(text) => {
            lemma_characters_keep_order(g, st, text);
        },
        _ => {},
    }
}

/// Character data keeps a graph well formed and the open elements
/// alternating.
proof fn lemma_characters_keep_order(g: GraphView, st: StateView, text: Seq<char>)
    requires
        graph_wf(g),
        state_wf(st),
        characters(g, st, text) is Ok,
    ensures
        graph_wf(characters(g, st, text)->Ok_0.0),
        state_wf(characters(g, st, text)->Ok_0.1),
{
    match st {
        StateView::Rdf { stack, n_b_nodes } => {
            let literal_tag = match frame_tag(stack.last()) {
                Some(tag) => tag,
                None => LiteralTagView::Type(xsd::string_text()),
            };
            lemma_triple_keeps_order(
                g,
                frame_subject(stack[stack.len() - 2]),
                frame_predicate(stack.last()),
                NodeView::Literal(LiteralView { string: text, literal_tag }),
            );
        },
        _ => {},
    }
}

/// However many events a parse takes, the graph it has built is well formed:
/// what is read comes out in canonical order, as what is added by hand does.
pub proof fn lemma_run_keeps_order(g: GraphView, st: StateView, events: Seq<EventView>, n: int)
    requires
        graph_wf(g),
        state_wf(st),
        run(g, st, events, n) is Ok,
    ensures
        graph_wf(run(g, st, events, n)->Ok_0.0),
        state_wf(run(g, st, events, n)->Ok_0.1),
    decreases n,
{
    if n > 0 {
        lemma_run_keeps_order(g, st, events, n - 1);
        let (g1, st1) = run(g, st, events, n - 1)->Ok_0;
        lemma_step_keeps_order(g1, st1, events[n - 1]);
    }
}

/// Once an attribute of the root element is an error, the attributes after
/// it change nothing.
pub proof fn lemma_top_level_error(
    default_ns: Option<Seq<char>>,
    attributes: Seq<AttributeView>,
    k: int,
    n: int,
)
    requires
        0 <= k <= n,
        top_level_attributes(default_ns, attributes, k) is Err,
    ensures
        top_level_attributes(default_ns, attributes, n) == top_level_attributes(
            default_ns,
            attributes,
            k,
        ),
    decreases n - k,
{
    if k < n {
        lemma_top_level_error(default_ns, attributes, k, n - 1);
    }
}

/// Where the attribute at position `k` is the first that is an error, the
/// default namespace left behind is what the attributes before it have set.
pub proof fn lemma_base_until_error(
    default_ns: Option<Seq<char>>,
    attributes: Seq<AttributeView>,
    k: int,
    n: int,
)
    requires
        0 <= k < n,
        top_level_attributes(default_ns, attributes, k) is Ok,
        top_level_attributes(default_ns, attributes, k + 1) is Err,
    ensures
        base_until_error(default_ns, attributes, n) == top_level_attributes(
            default_ns,
            attributes,
            k,
        )->Ok_0,
    decreases n - k,
{
    if n > k + 1 {
        lemma_top_level_error(default_ns, attributes, k + 1, n - 1);
        lemma_base_until_error(default_ns, attributes, k, n - 1);
    }
}

/// Once an event is an error, the events after it change nothing.
pub proof fn lemma_run_error(g: GraphView, st: StateView, events: Seq<EventView>, k: int, n: int)
    requires
        0 <= k <= n,
        run(g, st, events, k) is Err,
    ensures
        run(g, st, events, n) == run(g, st, events, k),
    decreases n - k,
{
    if k < n {
        lemma_run_error(g, st, events, k, n - 1);
    }
}

} // verus!
