use vstd::prelude::*;
use crate::model::graph::{
    bind_prefix, insert_triple, lookup_prefix, lookup_prefix_from, prefixes_sorted, triples_sorted,
};
use crate::model::order::{lemma_triple_rank_laws, triple_rank};
use crate::model::TripleView;
use crate::text::{lemma_text_rank_laws, text_rank};

verus! {

/// Where every triple before position `i` ranks before `t` and the one at `i`
/// ranks after it, adding `t` puts it at `i`.
pub(crate) proof fn lemma_insert_triple_at(s: Seq<TripleView>, t: TripleView, i: int)
    requires
        0 <= i <= s.len(),
        forall|j: int| 0 <= j < i ==> triple_rank(t, #[trigger] s[j]) is Greater,
        i < s.len() ==> triple_rank(t, s[i]) is Less,
    ensures
        insert_triple(s, t) == s.insert(i, t),
    decreases s.len(),
{
    if s.len() == 0 {
        assert(seq![t] =~= s.insert(i, t));
    } else if i == 0 {
        assert(seq![t] + s =~= s.insert(0, t));
    } else {
        let rest = s.drop_first();
        assert(triple_rank(t, s[0]) is Greater);
        assert forall|j: int| 0 <= j < i - 1 implies triple_rank(t, #[trigger] rest[j]) is Greater by {
            assert(rest[j] == s[j + 1]);
        }
        if i - 1 < rest.len() {
            assert(rest[i - 1] == s[i]);
        }
        lemma_insert_triple_at(rest, t, i - 1);
        assert(seq![s[0]] + rest.insert(i - 1, t) =~= s.insert(i, t));
    }
}

/// Where every triple before position `i` ranks before `t` and the one at `i`
/// is `t`, adding `t` changes nothing.
pub(crate) proof fn lemma_insert_triple_present(s: Seq<TripleView>, t: TripleView, i: int)
    requires
        0 <= i < s.len(),
        forall|j: int| 0 <= j < i ==> triple_rank(t, #[trigger] s[j]) is Greater,
        triple_rank(t, s[i]) is Equal,
    ensures
        insert_triple(s, t) == s,
    decreases s.len(),
{
    if i > 0 {
        let rest = s.drop_first();
        assert(triple_rank(t, s[0]) is Greater);
        assert forall|j: int| 0 <= j < i - 1 implies triple_rank(t, #[trigger] rest[j]) is Greater by {
            assert(rest[j] == s[j + 1]);
        }
        assert(rest[i - 1] == s[i]);
        lemma_insert_triple_present(rest, t, i - 1);
        assert(seq![s[0]] + rest =~= s);
    }
}

/// Putting `t` between the triples that rank before it and those that rank
/// after it keeps the canonical order, and adds `t` to what is held.
pub(crate) proof fn lemma_insert_at_sorted(s: Seq<TripleView>, t: TripleView, i: int)
    requires
        triples_sorted(s),
        0 <= i <= s.len(),
        forall|j: int| 0 <= j < i ==> triple_rank(t, #[trigger] s[j]) is Greater,
        forall|j: int| i <= j < s.len() ==> triple_rank(t, #[trigger] s[j]) is Less,
    ensures
        triples_sorted(s.insert(i, t)),
        forall|x: TripleView| #[trigger] s.insert(i, t).contains(x) <==> (x == t || s.contains(x)),
{
    let r = s.insert(i, t);
    assert forall|a: int, b: int| 0 <= a < b < r.len() implies triple_rank(
        #[trigger] r[a],
        #[trigger] r[b],
    ) is Less by {
        if b == i {
            lemma_triple_rank_laws(t, s[a], s[a]);
        } else if a == i {
            assert(r[b] == s[b - 1]);
        } else if a < i && b > i {
            assert(r[b] == s[b - 1]);
        } else if a < i {
        } else {
            assert(r[a] == s[a - 1]);
            assert(r[b] == s[b - 1]);
        }
    }
    assert forall|x: TripleView| #[trigger] r.contains(x) <==> (x == t || s.contains(x)) by {
        if r.contains(x) {
            let k = choose|k: int| 0 <= k < r.len() && r[k] == x;
            if k < i {
                assert(s[k] == x);
            } else if k > i {
                assert(s[k - 1] == x);
            }
        }
        if x == t {
            assert(r[i] == x);
        }
        if s.contains(x) {
            let k = choose|k: int| 0 <= k < s.len() && s[k] == x;
            if k < i {
                assert(r[k] == x);
            } else {
                assert(r[k + 1] == x);
            }
        }
    }
}

/// The position at which `t` belongs among triples in canonical order.
pub(crate) proof fn lemma_position(s: Seq<TripleView>, t: TripleView) -> (i: int)
    requires
        triples_sorted(s),
    ensures
        0 <= i <= s.len(),
        forall|j: int| 0 <= j < i ==> triple_rank(t, #[trigger] s[j]) is Greater,
        i < s.len() ==> !(triple_rank(t, s[i]) is Greater),
        forall|j: int| i < j < s.len() ==> triple_rank(t, #[trigger] s[j]) is Less,
    decreases s.len(),
{
    if s.len() == 0 {
        0
    } else {
        let last = s.last();
        let front = s.drop_last();
        assert forall|a: int, b: int| 0 <= a < b < front.len() implies triple_rank(
            #[trigger] front[a],
            #[trigger] front[b],
        ) is Less by {
            assert(front[a] == s[a] && front[b] == s[b]);
        }
        if triple_rank(t, last) is Greater {
            assert forall|j: int| 0 <= j < s.len() implies triple_rank(t, #[trigger] s[j]) is Greater by {
                if j < s.len() - 1 {
                    lemma_triple_rank_laws(s[j], last, t);
                    lemma_triple_rank_laws(t, last, last);
                    lemma_triple_rank_laws(t, s[j], s[j]);
                }
            }
            s.len() as int
        } else {
            let i = lemma_position(front, t);
            assert forall|j: int| 0 <= j < i implies triple_rank(t, #[trigger] s[j]) is Greater by {
                assert(front[j] == s[j]);
            }
            assert forall|j: int| i < j < s.len() implies triple_rank(t, #[trigger] s[j]) is Less by {
                if j < s.len() - 1 {
                    assert(front[j] == s[j]);
                } else {
                    lemma_triple_rank_laws(t, s[i], last);
                    lemma_triple_rank_laws(t, last, last);
                }
            }
            if i < front.len() {
                assert(front[i] == s[i]);
            }
            i
        }
    }
}

/// Adding a triple keeps the canonical order, and the graph then holds the
/// triple and what it held before, nothing else.
pub proof fn lemma_insert_triple_sorted(s: Seq<TripleView>, t: TripleView)
    requires
        triples_sorted(s),
    ensures
        triples_sorted(insert_triple(s, t)),
        forall|x: TripleView| #[trigger] insert_triple(s, t).contains(x) <==> (x == t || s.contains(x)),
        s.contains(t) ==> insert_triple(s, t) == s,
        !s.contains(t) ==> insert_triple(s, t).len() == s.len() + 1,
{
    let i = lemma_position(s, t);
    if i < s.len() && triple_rank(t, s[i]) is Equal {
        lemma_insert_triple_present(s, t, i);
        lemma_triple_rank_laws(t, s[i], s[i]);
    } else {
        lemma_insert_triple_at(s, t, i);
        lemma_insert_at_sorted(s, t, i);
        if s.contains(t) {
            let k = choose|k: int| 0 <= k < s.len() && s[k] == t;
            lemma_triple_rank_laws(t, s[k], s[k]);
        }
    }
}

/// Adding the same triple a second time changes nothing.
pub proof fn lemma_insert_triple_idempotent(s: Seq<TripleView>, t: TripleView)
    requires
        triples_sorted(s),
    ensures
        insert_triple(insert_triple(s, t), t) == insert_triple(s, t),
        insert_triple(insert_triple(s, t), t).len() == insert_triple(s, t).len(),
        insert_triple(insert_triple(s, t), t).to_set() == insert_triple(s, t).to_set(),
{
    lemma_insert_triple_sorted(s, t);
    let once = insert_triple(s, t);
    assert(once.contains(t));
    lemma_insert_triple_sorted(once, t);
}

/// Two sequences of triples in canonical order that hold the same triples are
/// the same sequence: the order of `triples()` is fixed by what the graph holds.
pub proof fn lemma_sorted_triples_unique(a: Seq<TripleView>, b: Seq<TripleView>)
    requires
        triples_sorted(a),
        triples_sorted(b),
        forall|x: TripleView| a.contains(x) <==> b.contains(x),
    ensures
        a == b,
    decreases a.len(),
{
    if a.len() == 0 {
        if b.len() > 0 {
            assert(b.contains(b[0]));
        }
        assert(a =~= b);
    } else if b.len() == 0 {
        assert(a.contains(a[0]));
    } else {
        let x = a.last();
        let y = b.last();
        assert(a.contains(x));
        assert(b.contains(y));
        let kx = choose|k: int| 0 <= k < b.len() && b[k] == x;
        let ky = choose|k: int| 0 <= k < a.len() && a[k] == y;
        lemma_triple_rank_laws(x, y, x);
        assert(x == y) by {
            if kx < b.len() - 1 {
                assert(triple_rank(b[kx], b[b.len() - 1]) is Less);
            }
            if ky < a.len() - 1 {
                assert(triple_rank(a[ky], a[a.len() - 1]) is Less);
            }
        }
        let fa = a.drop_last();
        let fb = b.drop_last();
        assert forall|z: TripleView| fa.contains(z) <==> fb.contains(z) by {
            if fa.contains(z) {
                let k = choose|k: int| 0 <= k < fa.len() && fa[k] == z;
                assert(a[k] == z);
                assert(triple_rank(a[k], a[a.len() - 1]) is Less);
                lemma_triple_rank_laws(z, x, x);
                assert(a.contains(z));
                let m = choose|m: int| 0 <= m < b.len() && b[m] == z;
                assert(fb[m] == z);
            }
            if fb.contains(z) {
                let k = choose|k: int| 0 <= k < fb.len() && fb[k] == z;
                assert(b[k] == z);
                assert(triple_rank(b[k], b[b.len() - 1]) is Less);
                lemma_triple_rank_laws(z, y, y);
                assert(b.contains(z));
                let m = choose|m: int| 0 <= m < a.len() && a[m] == z;
                assert(fa[m] == z);
            }
        }
        assert(triples_sorted(fa)) by {
            assert forall|i: int, j: int| 0 <= i < j < fa.len() implies triple_rank(
                #[trigger] fa[i],
                #[trigger] fa[j],
            ) is Less by {
                assert(fa[i] == a[i] && fa[j] == a[j]);
            }
        }
        assert(triples_sorted(fb)) by {
            assert forall|i: int, j: int| 0 <= i < j < fb.len() implies triple_rank(
                #[trigger] fb[i],
                #[trigger] fb[j],
            ) is Less by {
                assert(fb[i] == b[i] && fb[j] == b[j]);
            }
        }
        lemma_sorted_triples_unique(fa, fb);
        assert(a =~= fa.push(x));
        assert(b =~= fb.push(y));
    }
}

/// The order in which two triples are added does not matter.
pub proof fn lemma_insert_triple_commutes(s: Seq<TripleView>, a: TripleView, b: TripleView)
    requires
        triples_sorted(s),
    ensures
        insert_triple(insert_triple(s, a), b) == insert_triple(insert_triple(s, b), a),
{
    lemma_insert_triple_sorted(s, a);
    lemma_insert_triple_sorted(s, b);
    lemma_insert_triple_sorted(insert_triple(s, a), b);
    lemma_insert_triple_sorted(insert_triple(s, b), a);
    let x = insert_triple(insert_triple(s, a), b);
    let y = insert_triple(insert_triple(s, b), a);
    assert forall|t: TripleView| x.contains(t) <==> y.contains(t) by {
        assert(x.contains(t) <==> (t == b || insert_triple(s, a).contains(t)));
        assert(y.contains(t) <==> (t == a || insert_triple(s, b).contains(t)));
        assert(insert_triple(s, a).contains(t) <==> (t == a || s.contains(t)));
        assert(insert_triple(s, b).contains(t) <==> (t == b || s.contains(t)));
    }
    lemma_sorted_triples_unique(x, y);
}

/// Where every key before position `i` ranks before `key` and the one at `i`
/// does not, binding `key` replaces the binding at `i` if its key is `key`,
/// and else puts the new binding at `i`.
pub(crate) proof fn lemma_bind_prefix_at(p: Seq<(Seq<char>, Seq<char>)>, key: Seq<char>, value: Seq<char>, i: int)
    requires
        0 <= i <= p.len(),
        forall|j: int| 0 <= j < i ==> text_rank(key, (#[trigger] p[j]).0) is Greater,
        i < p.len() ==> !(text_rank(key, p[i].0) is Greater),
    ensures
        i < p.len() && text_rank(key, p[i].0) is Equal ==> bind_prefix(p, key, value) == p.update(
            i,
            (key, value),
        ),
        !(i < p.len() && text_rank(key, p[i].0) is Equal) ==> bind_prefix(p, key, value)
            == p.insert(i, (key, value)),
    decreases p.len(),
{
    if p.len() == 0 {
        assert(seq![(key, value)] =~= p.insert(i, (key, value)));
    } else if i == 0 {
        assert(seq![(key, value)] + p =~= p.insert(0, (key, value)));
        assert(seq![(key, value)] + p.drop_first() =~= p.update(0, (key, value)));
    } else {
        let rest = p.drop_first();
        assert(text_rank(key, p[0].0) is Greater);
        assert forall|j: int| 0 <= j < i - 1 implies text_rank(key, (#[trigger] rest[j]).0) is Greater by {
            assert(rest[j] == p[j + 1]);
        }
        if i - 1 < rest.len() {
            assert(rest[i - 1] == p[i]);
        }
        lemma_bind_prefix_at(rest, key, value, i - 1);
        assert(seq![p[0]] + rest.insert(i - 1, (key, value)) =~= p.insert(i, (key, value)));
        if i < p.len() {
            assert(seq![p[0]] + rest.update(i - 1, (key, value)) =~= p.update(i, (key, value)));
        }
    }
}

/// The first binding of `key` from position `i` on is what a lookup finds.
pub(crate) proof fn lemma_lookup_found(p: Seq<(Seq<char>, Seq<char>)>, key: Seq<char>, i: int, k: int)
    requires
        0 <= i <= k < p.len(),
        p[k].0 == key,
        forall|j: int| i <= j < k ==> (#[trigger] p[j]).0 != key,
    ensures
        lookup_prefix_from(p, key, i) == Some(p[k].1),
    decreases k - i,
{
    if i < k {
        lemma_lookup_found(p, key, i + 1, k);
    }
}

/// A lookup finds nothing where no binding from position `i` on has the key.
pub(crate) proof fn lemma_lookup_missing(p: Seq<(Seq<char>, Seq<char>)>, key: Seq<char>, i: int)
    requires
        0 <= i <= p.len(),
        forall|j: int| i <= j < p.len() ==> (#[trigger] p[j]).0 != key,
    ensures
        lookup_prefix_from(p, key, i) is None,
    decreases p.len() - i,
{
    if i < p.len() {
        lemma_lookup_missing(p, key, i + 1);
    }
}

/// The position of the binding that a lookup from position `i` finds, or the
/// length of the table where it finds none.
pub(crate) proof fn lemma_lookup_index(p: Seq<(Seq<char>, Seq<char>)>, key: Seq<char>, i: int) -> (k: int)
    requires
        0 <= i <= p.len(),
    ensures
        i <= k <= p.len(),
        forall|j: int| i <= j < k ==> (#[trigger] p[j]).0 != key,
        k < p.len() ==> p[k].0 == key && lookup_prefix_from(p, key, i) == Some(p[k].1),
        k == p.len() ==> lookup_prefix_from(p, key, i) is None,
    decreases p.len() - i,
{
    if i >= p.len() {
        i
    } else if p[i].0 == key {
        i
    } else {
        lemma_lookup_index(p, key, i + 1)
    }
}

/// The position at which `key` belongs among bindings in the order of their
/// keys.
pub(crate) proof fn lemma_prefix_position(p: Seq<(Seq<char>, Seq<char>)>, key: Seq<char>) -> (i: int)
    requires
        prefixes_sorted(p),
    ensures
        0 <= i <= p.len(),
        forall|j: int| 0 <= j < i ==> text_rank(key, (#[trigger] p[j]).0) is Greater,
        i < p.len() ==> !(text_rank(key, p[i].0) is Greater),
        forall|j: int| i < j < p.len() ==> text_rank(key, (#[trigger] p[j]).0) is Less,
    decreases p.len(),
{
    if p.len() == 0 {
        0
    } else {
        let last = p.last();
        let front = p.drop_last();
        assert forall|a: int, b: int| 0 <= a < b < front.len() implies text_rank(
            (#[trigger] front[a]).0,
            (#[trigger] front[b]).0,
        ) is Less by {
            assert(front[a] == p[a] && front[b] == p[b]);
        }
        if text_rank(key, last.0) is Greater {
            assert forall|j: int| 0 <= j < p.len() implies text_rank(key, (#[trigger] p[j]).0) is Greater by {
                if j < p.len() - 1 {
                    lemma_text_rank_laws(p[j].0, last.0, key);
                    lemma_text_rank_laws(key, last.0, last.0);
                    lemma_text_rank_laws(key, p[j].0, p[j].0);
                }
            }
            p.len() as int
        } else {
            let i = lemma_prefix_position(front, key);
            assert forall|j: int| 0 <= j < i implies text_rank(key, (#[trigger] p[j]).0) is Greater by {
                assert(front[j] == p[j]);
            }
            assert forall|j: int| i < j < p.len() implies text_rank(key, (#[trigger] p[j]).0) is Less by {
                if j < p.len() - 1 {
                    assert(front[j] == p[j]);
                } else {
                    lemma_text_rank_laws(key, p[i].0, last.0);
                    lemma_text_rank_laws(key, last.0, last.0);
                }
            }
            if i < front.len() {
                assert(front[i] == p[i]);
            }
            i
        }
    }
}

/// Binding a key at the position where it belongs keeps the order of the
/// keys, and changes what a lookup finds for that key alone.
pub(crate) proof fn lemma_bound_sorted(p: Seq<(Seq<char>, Seq<char>)>, key: Seq<char>, value: Seq<char>, i: int)
    requires
        prefixes_sorted(p),
        0 <= i <= p.len(),
        forall|j: int| 0 <= j < i ==> text_rank(key, (#[trigger] p[j]).0) is Greater,
        i < p.len() ==> !(text_rank(key, p[i].0) is Greater),
        forall|j: int| i < j < p.len() ==> text_rank(key, (#[trigger] p[j]).0) is Less,
    ensures
        prefixes_sorted(bind_prefix(p, key, value)),
        forall|other: Seq<char>| #[trigger]
            lookup_prefix(bind_prefix(p, key, value), other) == if other == key {
                Some(value)
            } else {
                lookup_prefix(p, other)
            },
{
    lemma_bind_prefix_at(p, key, value, i);
    let r = bind_prefix(p, key, value);
    let present = i < p.len() && text_rank(key, p[i].0) is Equal;
    if present {
        lemma_text_rank_laws(key, p[i].0, p[i].0);
    }
    assert(r[i] == (key, value));
    assert forall|a: int, b: int| 0 <= a < b < r.len() implies text_rank(
        (#[trigger] r[a]).0,
        (#[trigger] r[b]).0,
    ) is Less by {
        if present {
            assert(r[a].0 == p[a].0 && r[b].0 == p[b].0);
        } else if b == i {
            lemma_text_rank_laws(key, p[a].0, p[a].0);
        } else if a == i {
            assert(r[b] == p[b - 1]);
        } else if a < i && b > i {
            assert(r[b] == p[b - 1]);
        } else if a < i {
        } else {
            assert(r[a] == p[a - 1]);
            assert(r[b] == p[b - 1]);
        }
    }
    assert forall|other: Seq<char>| #[trigger]
        lookup_prefix(r, other) == if other == key {
            Some(value)
        } else {
            lookup_prefix(p, other)
        } by {
        if other == key {
            assert forall|j: int| 0 <= j < i implies (#[trigger] r[j]).0 != key by {
                assert(r[j] == p[j]);
                lemma_text_rank_laws(key, p[j].0, p[j].0);
            }
            lemma_lookup_found(r, key, 0, i);
        } else {
            let k = lemma_lookup_index(p, other, 0);
            if present {
                assert forall|j: int| 0 <= j < r.len() implies (#[trigger] r[j]).0 == p[j].0 by {}
                if k < p.len() {
                    assert(r[k] == p[k]);
                    lemma_lookup_found(r, other, 0, k);
                } else {
                    lemma_lookup_missing(r, other, 0);
                }
            } else if k < i {
                assert forall|j: int| 0 <= j < k implies (#[trigger] r[j]).0 != other by {
                    assert(r[j] == p[j]);
                }
                assert(r[k] == p[k]);
                lemma_lookup_found(r, other, 0, k);
            } else if k < p.len() {
                assert forall|j: int| 0 <= j < k + 1 implies (#[trigger] r[j]).0 != other by {
                    if j < i {
                        assert(r[j] == p[j]);
                    } else if j > i {
                        assert(r[j] == p[j - 1]);
                    }
                }
                assert(r[k + 1] == p[k]);
                lemma_lookup_found(r, other, 0, k + 1);
            } else {
                assert forall|j: int| 0 <= j < r.len() implies (#[trigger] r[j]).0 != other by {
                    if j < i {
                        assert(r[j] == p[j]);
                    } else if j > i {
                        assert(r[j] == p[j - 1]);
                    }
                }
                lemma_lookup_missing(r, other, 0);
            }
        }
    }
}

/// Binding a prefix keeps the table in the order of its keys with no key
/// twice; the key is then bound to the new namespace, whatever it was bound to
/// before, and every other key is bound as it was.
pub proof fn lemma_bind_prefix_sorted(p: Seq<(Seq<char>, Seq<char>)>, key: Seq<char>, value: Seq<char>)
    requires
        prefixes_sorted(p),
    ensures
        prefixes_sorted(bind_prefix(p, key, value)),
        forall|other: Seq<char>| #[trigger]
            lookup_prefix(bind_prefix(p, key, value), other) == if other == key {
                Some(value)
            } else {
                lookup_prefix(p, other)
            },
{
    let i = lemma_prefix_position(p, key);
    lemma_bound_sorted(p, key, value, i);
}

} // verus!
