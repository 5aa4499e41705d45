use vstd::prelude::*;
use crate::model::graph_laws::{
    lemma_insert_triple_at, lemma_insert_triple_present, lemma_insert_at_sorted, lemma_bind_prefix_at, lemma_bind_prefix_sorted,
};
use crate::model::iri::Iri;
use crate::model::node::{Entity, Node};
use crate::model::order::{lemma_triple_rank_laws, triple_rank};
use crate::model::triple::Triple;
use crate::model::TripleView;
use crate::text::{compare_text, lemma_text_rank_laws, text_rank, Rank};

verus! {

/// What a graph stands for: its default namespace, its prefix table as the
/// bindings in the order of their keys, and its triples in canonical order.
pub struct GraphView {
    pub default_ns: Option<Seq<char>>,
    pub prefixes: Seq<(Seq<char>, Seq<char>)>,
    pub triples: Seq<TripleView>,
}

/// Whether the triples stand in canonical order with none occurring twice.
pub open spec fn triples_sorted(s: Seq<TripleView>) -> bool {
    forall|i: int, j: int| 0 <= i < j < s.len() ==> triple_rank(#[trigger] s[i], #[trigger] s[j]) is Less
}

/// Whether the bindings stand in the order of their keys with no key twice.
pub open spec fn prefixes_sorted(p: Seq<(Seq<char>, Seq<char>)>) -> bool {
    forall|i: int, j: int| 0 <= i < j < p.len() ==> text_rank((#[trigger] p[i]).0, (#[trigger] p[j]).0) is Less
}

/// The triples `s` with `t` among them: `s` itself where `t` is there already,
/// else `s` with `t` put in before the first triple that ranks after it.
pub open spec fn insert_triple(s: Seq<TripleView>, t: TripleView) -> Seq<TripleView>
    decreases s.len(),
{
    if s.len() == 0 {
        seq![t]
    } else {
        match triple_rank(t, s[0]) {
            Rank::Less => seq![t] + s,
            Rank::Equal => s,
            Rank::Greater => seq![s[0]] + insert_triple(s.drop_first(), t),
        }
    }
}

/// The bindings `p` with `key` bound to `value`: a binding of `key` in `p` is
/// replaced, and a new one is put in where the order of the keys has it.
pub open spec fn bind_prefix(p: Seq<(Seq<char>, Seq<char>)>, key: Seq<char>, value: Seq<char>) -> Seq<(Seq<char>, Seq<char>)>
    decreases p.len(),
{
    if p.len() == 0 {
        seq![(key, value)]
    } else {
        match text_rank(key, p[0].0) {
            Rank::Less => seq![(key, value)] + p,
            Rank::Equal => seq![(key, value)] + p.drop_first(),
            Rank::Greater => seq![p[0]] + bind_prefix(p.drop_first(), key, value),
        }
    }
}

/// The namespace that `key` is bound to in `p` from position `i` on, if any.
pub open spec fn lookup_prefix_from(p: Seq<(Seq<char>, Seq<char>)>, key: Seq<char>, i: int) -> Option<Seq<char>>
    decreases p.len() - i,
{
    if i < 0 || i >= p.len() {
        None
    } else if p[i].0 == key {
        Some(p[i].1)
    } else {
        lookup_prefix_from(p, key, i + 1)
    }
}

/// The namespace that `key` is bound to in `p`, if any.
pub open spec fn lookup_prefix(p: Seq<(Seq<char>, Seq<char>)>, key: Seq<char>) -> Option<Seq<char>> {
    lookup_prefix_from(p, key, 0)
}

/// The views of a vector of triples, one for one.
pub open spec fn views_of(v: Seq<Triple>) -> Seq<TripleView> {
    Seq::new(v.len(), |i: int| v[i]@)
}

/// The views of a vector of bindings, one for one.
pub open spec fn bindings_of(v: Seq<(String, Iri)>) -> Seq<(Seq<char>, Seq<char>)> {
    Seq::new(v.len(), |i: int| (v[i].0@, v[i].1@))
}

/// Whether a graph's view is well formed: the triples in canonical order with
/// none twice, the prefix table in the order of its keys with no key twice.
pub open spec fn graph_wf(g: GraphView) -> bool {
    triples_sorted(g.triples) && prefixes_sorted(g.prefixes)
}

/// The text of an optional IRI.
pub open spec fn optional_text(iri: Option<Iri>) -> Option<Seq<char>> {
    match iri {
        Some(i) => Some(i@),
        None => None,
    }
}

/// Anything that can be read as a graph: a prefix table and triples in
/// canonical order.
pub trait Graph {
    /// What the graph holds.
    spec fn graph_view(&self) -> GraphView;

    /// The default namespace, if one was set.
    fn default_ns(&self) -> (r: &Option<Iri>)
        ensures
            optional_text(*r) == self.graph_view().default_ns,
    ;

    /// The prefix table, in the order of its keys.
    fn prefixes(&self) -> (r: &Vec<(String, Iri)>)
        ensures
            bindings_of(r@) == self.graph_view().prefixes,
            prefixes_sorted(bindings_of(r@)),
    ;

    /// The triples, in canonical order and each once.
    fn triples(&self) -> (r: Vec<Triple>)
        ensures
            views_of(r@) == self.graph_view().triples,
            triples_sorted(views_of(r@)),
    ;

    /// Whether the graph holds no triple.
    fn is_empty(&self) -> (r: bool)
        ensures
            r == (self.graph_view().triples.len() == 0),
    ;

    /// The number of triples.
    fn len(&self) -> (r: usize)
        ensures
            r == self.graph_view().triples.len(),
    ;
}

/// A graph held in memory: a set of triples kept in canonical order, and a
/// prefix table.
pub struct MemoryGraph {
    default_ns: Option<Iri>,
    prefixes: Vec<(String, Iri)>,
    triples: Vec<Triple>,
}

impl View for MemoryGraph {
    type V = GraphView;

    closed spec fn view(&self) -> GraphView {
        GraphView {
            default_ns: optional_text(self.default_ns),
            prefixes: bindings_of(self.prefixes@),
            triples: views_of(self.triples@),
        }
    }
}

impl MemoryGraph {
    #[verifier::type_invariant]
    spec fn ordered(&self) -> bool {
        triples_sorted(views_of(self.triples@)) && prefixes_sorted(bindings_of(self.prefixes@))
    }

    /// Whether the graph is well formed: the triples in canonical order with
    /// none twice, the prefix table in the order of its keys with no key twice.
    /// Every graph that a program holds is.
    pub open spec fn wf(&self) -> bool {
        graph_wf(self@)
    }

    /// Recalls that this graph is well formed, as every graph is.
    pub fn ensure_wf(&self)
        ensures
            self.wf(),
    {
        proof {
            use_type_invariant(self);
        }
    }

    /// The empty graph.
    pub fn new() -> (r: MemoryGraph)
        ensures
            r.wf(),
            r@ == (GraphView { default_ns: None, prefixes: Seq::empty(), triples: Seq::empty() }),
    {
        let r = MemoryGraph { default_ns: None, prefixes: Vec::new(), triples: Vec::new() };
        assert(r@.prefixes =~= Seq::empty());
        assert(r@.triples =~= Seq::empty());
        r
    }

    /// Records `default_ns` as the graph's default namespace.
    pub fn set_default_ns(&mut self, default_ns: Iri)
        ensures
            final(self).wf(),
            final(self)@ == (GraphView { default_ns: Some(default_ns@), ..old(self)@ }),
    {
        proof {
            use_type_invariant(&*self);
        }
        self.default_ns = Some(default_ns);
    }

    /// Binds `prefix` to `iri`, whatever it was bound to before.
    pub fn add_prefix(&mut self, prefix: String, iri: Iri)
        ensures
            final(self).wf(),
            final(self)@ == (GraphView {
                prefixes: bind_prefix(old(self)@.prefixes, prefix@, iri@),
                ..old(self)@
            }),
    {
        proof {
            use_type_invariant(&*self);
        }
        let ghost p = self@.prefixes;
        let mut i: usize = 0;
        let mut found: bool = false;
        let mut done: bool = false;
        while !done && i < self.prefixes.len()
            invariant
                *self == *old(self),
                p == bindings_of(self.prefixes@),
                i <= self.prefixes.len(),
                forall|j: int| 0 <= j < i ==> text_rank(prefix@, (#[trigger] p[j]).0) is Greater,
                done ==> i < p.len() && !(text_rank(prefix@, p[i as int].0) is Greater),
                found == (done && text_rank(prefix@, p[i as int].0) is Equal),
            decreases self.prefixes.len() - i + if done { 0int } else { 1int },
        {
            let rank = compare_text(prefix.as_str(), self.prefixes[i].0.as_str());
            assert(p[i as int].0 == self.prefixes@[i as int].0@);
            match rank {
                Rank::Greater => {
                    i = i + 1;
                },
                Rank::Equal => {
                    found = true;
                    done = true;
                },
                Rank::Less => {
                    done = true;
                },
            }
        }
        proof {
            lemma_bind_prefix_at(p, prefix@, iri@, i as int);
            lemma_bind_prefix_sorted(p, prefix@, iri@);
        }
        let mut prefixes: Vec<(String, Iri)> = Vec::new();
        assert(bindings_of(prefixes@) =~= Seq::empty());
        core::mem::swap(&mut self.prefixes, &mut prefixes);
        if found {
            prefixes[i] = (prefix, iri);
            assert(bindings_of(prefixes@) =~= p.update(i as int, (prefix@, iri@)));
        } else {
            prefixes.insert(i, (prefix, iri));
            assert(bindings_of(prefixes@) =~= p.insert(i as int, (prefix@, iri@)));
        }
        core::mem::swap(&mut self.prefixes, &mut prefixes);
    }

    /// The namespace that `prefix` is bound to, if any.
    pub fn find_prefix(&self, prefix: &str) -> (r: Option<Iri>)
        ensures
            optional_text(r) == lookup_prefix(self@.prefixes, prefix@),
    {
        let ghost p = self@.prefixes;
        let mut i: usize = 0;
        while i < self.prefixes.len()
            invariant
                p == bindings_of(self.prefixes@),
                i <= self.prefixes.len(),
                lookup_prefix(p, prefix@) == lookup_prefix_from(p, prefix@, i as int),
            decreases self.prefixes.len() - i,
        {
            assert(p[i as int].0 == self.prefixes@[i as int].0@);
            assert(p[i as int].1 == self.prefixes@[i as int].1@);
            let rank = compare_text(prefix, self.prefixes[i].0.as_str(),);
            proof {
                lemma_text_rank_laws(prefix@, p[i as int].0, p[i as int].0);
            }
            if rank == Rank::Equal {
                return Some(self.prefixes[i].1.clone());
            }
            i = i + 1;
        }
        None
    }

    /// Adds a triple; one that the graph holds already changes nothing.
    pub fn add_triple(&mut self, triple: Triple)
        ensures
            final(self).wf(),
            final(self)@ == (GraphView {
                triples: insert_triple(old(self)@.triples, triple@),
                ..old(self)@
            }),
    {
        proof {
            use_type_invariant(&*self);
        }
        let ghost s = self@.triples;
        let ghost t = triple@;
        let mut lo: usize = 0;
        let mut hi: usize = self.triples.len();
        while lo < hi
            invariant
                *self == *old(self),
                self.wf(),
                s == views_of(self.triples@),
                t == triple@,
                triples_sorted(s),
                lo <= hi <= self.triples.len(),
                forall|j: int| 0 <= j < lo ==> triple_rank(t, #[trigger] s[j]) is Greater,
                forall|j: int| hi <= j < s.len() ==> triple_rank(t, #[trigger] s[j]) is Less,
            decreases hi - lo,
        {
            let mid = lo + (hi - lo) / 2;
            let rank = triple.rank(&self.triples[mid]);
            assert(s[mid as int] == self.triples@[mid as int]@);
            match rank {
                Rank::Equal => {
                    proof {
                        assert forall|j: int| 0 <= j < mid implies triple_rank(t, #[trigger] s[j]) is Greater by {
                            lemma_triple_rank_laws(t, s[mid as int], s[mid as int]);
                            lemma_triple_rank_laws(s[j], s[mid as int], s[mid as int]);
                        }
                        lemma_insert_triple_present(s, t, mid as int);
                    }
                    return ;
                },
                Rank::Less => {
                    proof {
                        assert forall|j: int| mid <= j < s.len() implies triple_rank(t, #[trigger] s[j]) is Less by {
                            if j > mid {
                                lemma_triple_rank_laws(t, s[mid as int], s[j]);
                            }
                        }
                    }
                    hi = mid;
                },
                Rank::Greater => {
                    proof {
                        assert forall|j: int| 0 <= j < mid + 1 implies triple_rank(t, #[trigger] s[j]) is Greater by {
                            if j < mid {
                                lemma_triple_rank_laws(s[j], s[mid as int], t);
                                lemma_triple_rank_laws(t, s[mid as int], s[mid as int]);
                                lemma_triple_rank_laws(t, s[j], s[j]);
                            }
                        }
                    }
                    lo = mid + 1;
                },
            }
        }
        proof {
            lemma_insert_triple_at(s, t, lo as int);
            lemma_insert_at_sorted(s, t, lo as int);
        }
        let mut triples: Vec<Triple> = Vec::new();
        assert(views_of(triples@) =~= Seq::empty());
        core::mem::swap(&mut self.triples, &mut triples);
        triples.insert(lo, triple);
        assert(views_of(triples@) =~= s.insert(lo as int, t));
        core::mem::swap(&mut self.triples, &mut triples);
    }

    /// Adds the triple of the three given components; one that the graph holds
    /// already changes nothing.
    pub fn add(&mut self, subject: Entity, predicate: Iri, object: Node)
        ensures
            final(self).wf(),
            final(self)@ == (GraphView {
                triples: insert_triple(
                    old(self)@.triples,
                    TripleView { subject: subject@, predicate: predicate@, object: object@ },
                ),
                ..old(self)@
            }),
    {
        self.add_triple(Triple::new(subject, predicate, object));
    }
}

impl Default for MemoryGraph {
    fn default() -> (r: MemoryGraph)
        ensures
            r@ == (GraphView { default_ns: None, prefixes: Seq::empty(), triples: Seq::empty() }),
    {
        MemoryGraph::new()
    }
}

impl Graph for MemoryGraph {
    open spec fn graph_view(&self) -> GraphView {
        self@
    }

    fn default_ns(&self) -> (r: &Option<Iri>) {
        &self.default_ns
    }

    fn prefixes(&self) -> (r: &Vec<(String, Iri)>) {
        proof {
            use_type_invariant(self);
        }
        &self.prefixes
    }

    fn triples(&self) -> (r: Vec<Triple>) {
        proof {
            use_type_invariant(self);
        }
        let mut r: Vec<Triple> = Vec::new();
        let mut i: usize = 0;
        while i < self.triples.len()
            invariant
                i <= self.triples.len(),
                r@.len() == i,
                forall|j: int| 0 <= j < i ==> (#[trigger] r@[j])@ == self.triples@[j]@,
            decreases self.triples.len() - i,
        {
            r.push(self.triples[i].clone());
            i = i + 1;
        }
        assert(views_of(r@) =~= views_of(self.triples@));
        r
    }

    fn is_empty(&self) -> (r: bool) {
        self.triples.len() == 0
    }

    fn len(&self) -> (r: usize) {
        self.triples.len()
    }
}

} // verus!
