//! The variables that templates are rendered with.

use vstd::prelude::*;
use crate::json::JsonScalar;
use crate::config::{keys_unique, lookup, lemma_lookup_first, lemma_lookup_absent, lemma_lookup_update, lemma_lookup_push};
use crate::text::{split_once, first_index_of, lemma_first_index_of, has_prefix, find_char, substring};

verus! {

/// A value that templates can read.
#[derive(Debug)]
pub enum CtxValue {
    Str(String),
    List(Vec<CtxValue>),
    Object(Vec<(String, CtxValue)>),
    /// A null, boolean or number.
    Scalar(JsonScalar),
}

/// The view of a [`CtxValue`].
pub enum CtxView {
    Str(Seq<char>),
    List(Seq<CtxView>),
    Object(Seq<(Seq<char>, CtxView)>),
    Scalar(JsonScalar),
}

pub open spec fn ctx_view(c: CtxValue) -> CtxView
    decreases c,
{
    match c {
        CtxValue::Str(s) => CtxView::Str(s@),
        CtxValue::List(items) => CtxView::List(
            Seq::new(
                items@.len(),
                |i: int| if 0 <= i < items@.len() { ctx_view(items@[i]) } else { CtxView::Str(Seq::empty()) },
            ),
        ),
        CtxValue::Object(entries) => CtxView::Object(
            Seq::new(
                entries@.len(),
                |i: int|
                    if 0 <= i < entries@.len() {
                        (entries@[i].0@, ctx_view(entries@[i].1))
                    } else {
                        (Seq::empty(), CtxView::Str(Seq::empty()))
                    },
            ),
        ),
        CtxValue::Scalar(v) => CtxView::Scalar(v),
    }
}

impl View for CtxValue {
    type V = CtxView;

    open spec fn view(&self) -> CtxView {
        ctx_view(*self)
    }
}

pub proof fn lemma_split_shorter(p: Seq<char>)
    ensures
        split_once(p, '.') matches Some((h, rest)) ==> rest.len() < p.len() && h.len() < p.len()
            && p == h + seq!['.'] + rest && !h.contains('.'),
{
    lemma_first_index_of(p, '.');
    if let Some(i) = first_index_of(p, '.') {
        let h = p.subrange(0, i);
        let rest = p.subrange(i + 1, p.len() as int);
        assert(p =~= h + seq!['.'] + rest);
        assert forall|j: int| 0 <= j < h.len() implies h[j] != '.' by {}
    }
}

/// The value at a dotted path (`a.b.c`) in a map of values.
pub open spec fn ctx_lookup(c: CtxView, p: Seq<char>) -> Option<CtxView>
    decreases p.len(),
{
    match c {
        CtxView::Object(entries) => match split_once(p, '.') {
            Some((h, rest)) => {
                proof {
                    lemma_split_shorter(p);
                }
                match lookup(entries, h) {
                    Some(child) => ctx_lookup(child, rest),
                    None => None,
                }
            },
            None => lookup(entries, p),
        },
        _ => None,
    }
}

/// `a` followed by a dot is a prefix of `b`: a variable at `a` would stand where `b` needs a map.
pub open spec fn dotted_prefix(a: Seq<char>, b: Seq<char>) -> bool {
    has_prefix(b, a + seq!['.'])
}

/// Paths that can all be defined at once: no two are equal, and none is a dotted prefix of
/// another.
pub open spec fn independent_paths<V>(vars: Seq<(Seq<char>, V)>) -> bool {
    forall|i: int, j: int|
        #![trigger vars[i], vars[j]]
        0 <= i < vars.len() && 0 <= j < vars.len() && i != j ==> vars[i].0 != vars[j].0
            && !dotted_prefix(vars[i].0, vars[j].0)
}

/// A node of the tree that dotted paths are gathered into.
enum Node {
    Leaf(CtxValue),
    Branch(Vec<(String, Node)>),
}

enum NodeView {
    Leaf(CtxView),
    Branch(Seq<(Seq<char>, NodeView)>),
}

spec fn node_view(n: Node) -> NodeView
    decreases n,
{
    match n {
        Node::Leaf(v) => NodeView::Leaf(v@),
        Node::Branch(entries) => NodeView::Branch(
            Seq::new(
                entries@.len(),
                |i: int|
                    if 0 <= i < entries@.len() {
                        (entries@[i].0@, node_view(entries@[i].1))
                    } else {
                        (Seq::empty(), NodeView::Leaf(CtxView::Str(Seq::empty())))
                    },
            ),
        ),
    }
}

spec fn nodes_view(es: Seq<(String, Node)>) -> Seq<(Seq<char>, NodeView)> {
    es.map_values(|e: (String, Node)| (e.0@, node_view(e.1)))
}

/// The value at a dotted path among the leaves of a tree.
spec fn node_lookup(es: Seq<(Seq<char>, NodeView)>, p: Seq<char>) -> Option<CtxView>
    decreases p.len(),
{
    match split_once(p, '.') {
        Some((h, rest)) => {
            proof {
                lemma_split_shorter(p);
            }
            match lookup(es, h) {
                Some(NodeView::Branch(children)) => node_lookup(children, rest),
                _ => None,
            }
        },
        None => match lookup(es, p) {
            Some(NodeView::Leaf(v)) => Some(v),
            _ => None,
        },
    }
}

} // verus!

verus! {

proof fn lemma_split_concat(h: Seq<char>, r: Seq<char>)
    requires
        !h.contains('.'),
    ensures
        split_once(h + seq!['.'] + r, '.') == Some((h, r)),
{
    let p = h + seq!['.'] + r;
    lemma_first_index_of(p, '.');
    assert(p[h.len() as int] == '.');
    assert forall|j: int| 0 <= j < h.len() implies p[j] != '.' by {
        assert(p[j] == h[j]);
    }
    let i = first_index_of(p, '.').unwrap();
    assert(i == h.len());
    assert(p.subrange(0, i) =~= h);
    assert(p.subrange(i + 1, p.len() as int) =~= r);
}

proof fn lemma_dotted_same_head(h: Seq<char>, r1: Seq<char>, r2: Seq<char>)
    requires
        !h.contains('.'),
    ensures
        dotted_prefix(h + seq!['.'] + r1, h + seq!['.'] + r2) == dotted_prefix(r1, r2),
        (h + seq!['.'] + r1 == h + seq!['.'] + r2) == (r1 == r2),
{
    let a = h + seq!['.'] + r1;
    let b = h + seq!['.'] + r2;
    let n: int = h.len() + 1int;
    if dotted_prefix(a, b) {
        assert(b.subrange(n, b.len() as int) =~= r2);
        assert(r2.subrange(0, r1.len() + 1int) =~= b.subrange(0, a.len() + 1int).subrange(n, a.len() + 1int));
        assert((a + seq!['.']).subrange(n, a.len() + 1int) =~= r1 + seq!['.']);
    }
    if dotted_prefix(r1, r2) {
        let t = r1 + seq!['.'];
        assert(r2.subrange(0, t.len() as int) == t);
        assert forall|j: int| 0 <= j < a.len() + 1 implies b[j] == (a + seq!['.'])[j] by {
            if j >= n {
                assert(b[j] == r2[j - n]);
                assert(r2.subrange(0, t.len() as int)[j - n] == t[j - n]);
            }
        }
        assert(b.subrange(0, a.len() + 1int) =~= a + seq!['.']);
    }
    if a == b {
        assert(r1 =~= a.subrange(n, a.len() as int));
        assert(r2 =~= b.subrange(n, b.len() as int));
    }
}

proof fn lemma_dotted_no_dot(q: Seq<char>, h: Seq<char>, r: Seq<char>)
    requires
        !h.contains('.'),
        !q.contains('.'),
    ensures
        dotted_prefix(q, h + seq!['.'] + r) == (q == h),
        q != h + seq!['.'] + r,
        !dotted_prefix(h + seq!['.'] + r, q),
{
    let p = h + seq!['.'] + r;
    assert(p[h.len() as int] == '.');
    if dotted_prefix(q, p) {
        let t = q + seq!['.'];
        assert(p.subrange(0, t.len() as int) == t);
        if q.len() < h.len() {
            assert(t[q.len() as int] == '.');
            assert(p[q.len() as int] == h[q.len() as int]);
        } else if q.len() > h.len() {
            assert(t[h.len() as int] == q[h.len() as int]);
        }
        assert(q =~= h) by {
            assert forall|j: int| 0 <= j < q.len() implies q[j] == h[j] by {
                assert(t[j] == p[j]);
            }
        }
    }
    if q == h {
        assert(p.subrange(0, q.len() + 1int) =~= q + seq!['.']);
    }
    if q == p {
        assert(q[h.len() as int] == '.');
    }
    if dotted_prefix(p, q) {
        assert(q[h.len() as int] == (p + seq!['.'])[h.len() as int]);
    }
}

proof fn lemma_no_dot_of_split_none(p: Seq<char>)
    requires
        split_once(p, '.') is None,
    ensures
        !p.contains('.'),
{
    lemma_first_index_of(p, '.');
}

/// Every key of the tree is a single segment (it holds no dot) and occurs once at its level,
/// and every branch has children, which again form such a tree.
spec fn tree_wf(es: Seq<(Seq<char>, NodeView)>) -> bool
    decreases es,
{
    &&& keys_unique(es)
    &&& forall|i: int|
        0 <= i < es.len() ==> !(#[trigger] es[i]).0.contains('.') && match es[i].1 {
            NodeView::Leaf(_) => true,
            NodeView::Branch(children) => {
                proof {
                    assert(decreases_to!(es => es[i]));
                }
                children.len() > 0 && tree_wf(children)
            },
        }
}

proof fn lemma_lookup_found<V>(entries: Seq<(Seq<char>, V)>, key: Seq<char>)
    ensures
        lookup(entries, key) matches Some(v) ==> exists|i: int| 0 <= i < entries.len() && #[trigger] entries[i] == (key, v),
    decreases entries.len(),
{
    if entries.len() > 0 {
        if entries[0].0 == key {
            assert(entries[0] == (key, entries[0].1));
        } else {
            lemma_lookup_found(entries.drop_first(), key);
            if let Some(v) = lookup(entries, key) {
                let i = choose|i: int| 0 <= i < entries.len() - 1 && #[trigger] entries.drop_first()[i] == (key, v);
                assert(entries[i + 1] == (key, v));
            }
        }
    }
}

/// A branch found in a well-formed tree is itself well-formed and not empty.
proof fn lemma_lookup_wf(es: Seq<(Seq<char>, NodeView)>, k: Seq<char>)
    requires
        tree_wf(es),
    ensures
        lookup(es, k) matches Some(NodeView::Branch(c)) ==> c.len() > 0 && tree_wf(c),
{
    lemma_lookup_found(es, k);
    if let Some(n) = lookup(es, k) {
        let i = choose|i: int| 0 <= i < es.len() && #[trigger] es[i] == (k, n);
        assert(es[i] == (k, n));
    }
}

/// A well-formed tree with entries has a leaf somewhere.
proof fn lemma_exists_leaf(es: Seq<(Seq<char>, NodeView)>)
    requires
        tree_wf(es),
        es.len() > 0,
    ensures
        exists|q: Seq<char>| #[trigger] node_lookup(es, q) is Some,
    decreases es,
{
    let k = es[0].0;
    assert(!k.contains('.'));
    lemma_lookup_first(es, 0);
    lemma_first_index_of(k, '.');
    assert(split_once(k, '.') is None);
    match es[0].1 {
        NodeView::Leaf(x) => {
            assert(node_lookup(es, k) == Some(x));
        },
        NodeView::Branch(c) => {
            assert(decreases_to!(es => es[0]));
            lemma_exists_leaf(c);
            let q = choose|q: Seq<char>| #[trigger] node_lookup(c, q) is Some;
            lemma_split_concat(k, q);
            assert(node_lookup(es, k + seq!['.'] + q) == node_lookup(c, q));
        },
    }
}

/// Nothing lies below a leaf: a path through it finds nothing.
proof fn lemma_leaf_blocks_below(es: Seq<(Seq<char>, NodeView)>, p: Seq<char>, s: Seq<char>)
    requires
        node_lookup(es, p) is Some,
    ensures
        node_lookup(es, p + seq!['.'] + s) is None,
    decreases p.len(),
{
    lemma_split_shorter(p);
    match split_once(p, '.') {
        Some((h, r)) => {
            let q = p + seq!['.'] + s;
            assert(q =~= h + seq!['.'] + (r + seq!['.'] + s));
            lemma_split_concat(h, r + seq!['.'] + s);
            if let Some(NodeView::Branch(c)) = lookup(es, h) {
                lemma_leaf_blocks_below(c, r, s);
            }
        },
        None => {
            lemma_no_dot_of_split_none(p);
            lemma_split_concat(p, s);
        },
    }
}

/// A path that has `p` followed by a dot as its prefix continues `p`.
proof fn lemma_dotted_rest(p: Seq<char>, q: Seq<char>)
    requires
        dotted_prefix(p, q),
    ensures
        q =~= p + seq!['.'] + q.subrange(p.len() + 1int, q.len() as int),
{
    assert(q.subrange(0, p.len() + 1int) == p + seq!['.']);
    assert forall|j: int| 0 <= j < q.len() implies q[j] == (p + seq!['.'] + q.subrange(p.len() + 1int, q.len() as int))[j] by {
        if j < p.len() + 1 {
            assert(q[j] == q.subrange(0, p.len() + 1int)[j]);
        }
    }
}

} // verus!

verus! {

/// The first position of key `k`.
fn find_key(es: &Vec<(String, Node)>, k: &str) -> (r: Option<usize>)
    ensures
        match r {
            Some(i) => i < es@.len() && es@[i as int].0@ == k@ && forall|j: int| 0 <= j < i ==> es@[j].0@ != k@,
            None => forall|j: int| 0 <= j < es@.len() ==> es@[j].0@ != k@,
        },
{
    let mut i: usize = 0;
    while i < es.len()
        invariant
            i <= es@.len(),
            forall|j: int| 0 <= j < i ==> es@[j].0@ != k@,
        decreases es@.len() - i,
    {
        if crate::text::str_eq(es[i].0.as_str(), k) {
            return Some(i);
        }
        i = i + 1;
    }
    None
}

proof fn lemma_branch_view(es: Vec<(String, Node)>)
    ensures
        node_view(Node::Branch(es)) == NodeView::Branch(nodes_view(es@)),
{
    assert(nodes_view(es@) =~= match node_view(Node::Branch(es)) { NodeView::Branch(c) => c, _ => Seq::empty() });
}

proof fn lemma_nodes_view_index(es: Seq<(String, Node)>, i: int)
    requires
        0 <= i < es.len(),
    ensures
        nodes_view(es)[i] == (es[i].0@, node_view(es[i].1)),
        nodes_view(es).len() == es.len(),
{
}

spec fn indep(q: Seq<char>, p: Seq<char>) -> bool {
    q != p && !dotted_prefix(q, p) && !dotted_prefix(p, q)
}

proof fn lemma_node_lookup_empty(q: Seq<char>)
    ensures
        node_lookup(Seq::empty(), q) is None,
{
    lemma_split_shorter(q);
}

/// Replacing (or adding) the branch under `hv` by one where `rest` was inserted inserts `p`.
proof fn lemma_branch_insert(
    e0: Seq<(Seq<char>, NodeView)>,
    e1: Seq<(Seq<char>, NodeView)>,
    hv: Seq<char>,
    rest: Seq<char>,
    p: Seq<char>,
    old_children: Seq<(Seq<char>, NodeView)>,
    new_children: Seq<(Seq<char>, NodeView)>,
    vv: CtxView,
)
    requires
        !hv.contains('.'),
        p == hv + seq!['.'] + rest,
        lookup(e1, hv) == Some(NodeView::Branch(new_children)),
        lookup(e0, hv) == Some(NodeView::Branch(old_children)) || (lookup(e0, hv) is None
            && old_children.len() == 0),
        forall|k: Seq<char>| k != hv ==> #[trigger] lookup(e1, k) == lookup(e0, k),
        node_lookup(new_children, rest) == Some(vv),
        forall|q: Seq<char>| indep(q, rest) ==> #[trigger] node_lookup(new_children, q) == node_lookup(old_children, q),
        forall|q: Seq<char>| #[trigger] node_lookup(new_children, q) is Some ==> q == rest || node_lookup(old_children, q) is Some,
    ensures
        node_lookup(e1, p) == Some(vv),
        forall|q: Seq<char>| indep(q, p) ==> #[trigger] node_lookup(e1, q) == node_lookup(e0, q),
        forall|q: Seq<char>| #[trigger] node_lookup(e1, q) is Some ==> q == p || node_lookup(e0, q) is Some,
{
    lemma_split_concat(hv, rest);
    assert forall|q: Seq<char>| #![trigger node_lookup(e1, q)]
        (indep(q, p) ==> node_lookup(e1, q) == node_lookup(e0, q))
        && (node_lookup(e1, q) is Some ==> q == p || node_lookup(e0, q) is Some) by {
        lemma_split_shorter(q);
        match split_once(q, '.') {
            Some((h2, r2)) => {
                if h2 == hv {
                    lemma_dotted_same_head(hv, r2, rest);
                    lemma_dotted_same_head(hv, rest, r2);
                    assert(node_lookup(e1, q) == node_lookup(new_children, r2));
                    lemma_node_lookup_empty(r2);
                    assert(node_lookup(e0, q) == node_lookup(old_children, r2));
                    assert(indep(q, p) == indep(r2, rest));
                    if indep(r2, rest) {
                        assert(node_lookup(new_children, r2) == node_lookup(old_children, r2));
                    }
                    if node_lookup(new_children, r2) is Some {
                        assert(r2 == rest || node_lookup(old_children, r2) is Some);
                    }
                } else {
                    assert(lookup(e1, h2) == lookup(e0, h2));
                    assert(node_lookup(e1, q) == node_lookup(e0, q));
                }
            },
            None => {
                lemma_no_dot_of_split_none(q);
                lemma_dotted_no_dot(q, hv, rest);
                if q != hv {
                    assert(lookup(e1, q) == lookup(e0, q));
                    assert(node_lookup(e1, q) == node_lookup(e0, q));
                } else {
                    assert(node_lookup(e1, q) is None);
                }
            },
        }
    }
    assert(node_lookup(e1, p) == node_lookup(new_children, rest));
}

/// Setting the leaf at a dot-free path `p`.
proof fn lemma_leaf_insert(e0: Seq<(Seq<char>, NodeView)>, e1: Seq<(Seq<char>, NodeView)>, p: Seq<char>, vv: CtxView)
    requires
        !p.contains('.'),
        lookup(e1, p) == Some(NodeView::Leaf(vv)),
        forall|k: Seq<char>| k != p ==> #[trigger] lookup(e1, k) == lookup(e0, k),
    ensures
        node_lookup(e1, p) == Some(vv),
        forall|q: Seq<char>| indep(q, p) ==> #[trigger] node_lookup(e1, q) == node_lookup(e0, q),
        forall|q: Seq<char>| #[trigger] node_lookup(e1, q) is Some ==> q == p || node_lookup(e0, q) is Some,
{
    lemma_first_index_of(p, '.');
    assert forall|q: Seq<char>| #![trigger node_lookup(e1, q)]
        (indep(q, p) ==> node_lookup(e1, q) == node_lookup(e0, q))
        && (node_lookup(e1, q) is Some ==> q == p || node_lookup(e0, q) is Some) by {
        lemma_split_shorter(q);
        match split_once(q, '.') {
            Some((h2, r2)) => {
                lemma_dotted_no_dot(p, h2, r2);
                if h2 != p {
                    assert(lookup(e1, h2) == lookup(e0, h2));
                    assert(node_lookup(e1, q) == node_lookup(e0, q));
                } else {
                    assert(node_lookup(e1, q) is None);
                    assert(!indep(q, p));
                }
            },
            None => {
                if q != p {
                    assert(lookup(e1, q) == lookup(e0, q));
                    assert(node_lookup(e1, q) == node_lookup(e0, q));
                }
            },
        }
    }
    assert(node_lookup(e1, p) == Some(vv));
}

/// The position of the first entry with key `k`.
spec fn first_key<V>(es: Seq<(Seq<char>, V)>, k: Seq<char>) -> Option<int>
    decreases es.len(),
{
    if es.len() == 0 {
        None
    } else if es[0].0 == k {
        Some(0)
    } else {
        match first_key(es.drop_first(), k) {
            Some(i) => Some(i + 1),
            None => None,
        }
    }
}

proof fn lemma_first_key<V>(es: Seq<(Seq<char>, V)>, k: Seq<char>, i: int)
    requires
        0 <= i <= es.len(),
        i < es.len() ==> es[i].0 == k,
        forall|j: int| 0 <= j < i ==> es[j].0 != k,
    ensures
        first_key(es, k) == (if i < es.len() { Some(i) } else { None::<int> }),
    decreases i,
{
    if i > 0 {
        assert forall|j: int| 0 <= j < i - 1 implies es.drop_first()[j].0 != k by {
            assert(es.drop_first()[j] == es[j + 1]);
        }
        lemma_first_key(es.drop_first(), k, i - 1);
    }
}

/// The tree with `v` put at path `p`: branches are created on the way, the first entry of a
/// key is the one followed, and a leaf at `p` replaces what stood there.
spec fn tree_insert(es: Seq<(Seq<char>, NodeView)>, p: Seq<char>, v: CtxView) -> Seq<(Seq<char>, NodeView)>
    decreases p.len(),
{
    match split_once(p, '.') {
        Some((h, rest)) => {
            proof {
                lemma_split_shorter(p);
            }
            match first_key(es, h) {
                Some(i) => match es[i].1 {
                    NodeView::Branch(c) => es.update(i, (h, NodeView::Branch(tree_insert(c, rest, v)))),
                    NodeView::Leaf(_) => es,
                },
                None => es.push((h, NodeView::Branch(tree_insert(Seq::empty(), rest, v)))),
            }
        },
        None => match first_key(es, p) {
            Some(i) => es.update(i, (p, NodeView::Leaf(v))),
            None => es.push((p, NodeView::Leaf(v))),
        },
    }
}

proof fn lemma_wf_update(e0: Seq<(Seq<char>, NodeView)>, idx: int, k: Seq<char>, n: NodeView)
    requires
        tree_wf(e0),
        0 <= idx < e0.len(),
        e0[idx].0 == k,
        tree_wf(seq![(k, n)]),
    ensures
        tree_wf(e0.update(idx, (k, n))),
{
    let e1 = e0.update(idx, (k, n));
    let one = seq![(k, n)];
    assert(one[0] == (k, n));
    assert forall|i: int| 0 <= i < e1.len() implies #[trigger] e1[i] == (if i == idx { one[0] } else { e0[i] }) by {}
}

proof fn lemma_wf_push(e0: Seq<(Seq<char>, NodeView)>, k: Seq<char>, n: NodeView)
    requires
        tree_wf(e0),
        forall|j: int| 0 <= j < e0.len() ==> e0[j].0 != k,
        tree_wf(seq![(k, n)]),
    ensures
        tree_wf(e0.push((k, n))),
{
    let e1 = e0.push((k, n));
    let one = seq![(k, n)];
    assert(one[0] == (k, n));
    assert forall|i: int| 0 <= i < e1.len() implies #[trigger] e1[i] == (if i == e0.len() { one[0] } else { e0[i] }) by {}
}

/// Puts `v` at path `p` of the tree, creating branches on the way.
fn insert_node(es: Vec<(String, Node)>, p: &str, v: CtxValue) -> (r: Vec<(String, Node)>)
    requires
        forall|q: Seq<char>| #[trigger] node_lookup(nodes_view(es@), q) is Some ==> !dotted_prefix(q, p@),
        tree_wf(nodes_view(es@)),
    ensures
        tree_wf(nodes_view(r@)),
        nodes_view(r@).len() > 0,
        nodes_view(r@) == tree_insert(nodes_view(es@), p@, v@),
        node_lookup(nodes_view(r@), p@) == Some(v@),
        forall|q: Seq<char>|
            q != p@ && !dotted_prefix(q, p@) && !dotted_prefix(p@, q) ==> #[trigger] node_lookup(nodes_view(r@), q)
                == node_lookup(nodes_view(es@), q),
        forall|q: Seq<char>| #[trigger] node_lookup(nodes_view(r@), q) is Some ==> q == p@ || node_lookup(
            nodes_view(es@),
            q,
        ) is Some,
    decreases p@.len(),
{
    let ghost e0 = nodes_view(es@);
    let ghost vv = v@;
    proof {
        lemma_split_shorter(p@);
        lemma_first_index_of(p@, '.');
    }
    let mut es = es;
    match find_char(p, '.') {
        Some(dot) => {
            let n = p.unicode_len();
            let h = substring(p, 0, dot);
            let rest = substring(p, dot + 1, n);
            let ghost hv = h@;
            let ghost rv = rest@;
            assert(split_once(p@, '.') == Some((hv, rv)));
            match find_key(&es, h.as_str()) {
                Some(idx) => {
                    proof {
                        lemma_nodes_view_index(es@, idx as int);
                        assert forall|j: int| 0 <= j < idx implies e0[j].0 != hv by {
                            lemma_nodes_view_index(es@, j);
                        }
                        lemma_lookup_first(e0, idx as int);
                        lemma_first_key(e0, hv, idx as int);
                    }
                    let ghost before = es@;
                    let (k, node) = es.remove(idx);
                    match node {
                        Node::Branch(children) => {
                            let ghost oc = nodes_view(children@);
                            proof {
                                lemma_branch_view(children);
                            }
                            assert(lookup(e0, hv) == Some(NodeView::Branch(oc)));
                            assert(e0[idx as int] == (hv, NodeView::Branch(oc)));
                            assert(tree_wf(oc));
                            proof {
                                assert forall|q: Seq<char>| #[trigger] node_lookup(oc, q) is Some implies !dotted_prefix(q, rv) by {
                                    lemma_split_concat(hv, q);
                                    assert(node_lookup(e0, hv + seq!['.'] + q) == node_lookup(oc, q));
                                    lemma_dotted_same_head(hv, q, rv);
                                }
                            }
                            let nc = insert_node(children, rest.as_str(), v);
                            let ghost ncv = nodes_view(nc@);
                            proof {
                                lemma_branch_view(nc);
                            }
                            es.insert(idx, (k, Node::Branch(nc)));
                            proof {
                                let e1 = nodes_view(es@);
                                assert(es@ == before.update(idx as int, es@[idx as int]));
                                assert(e1 =~= e0.update(idx as int, (hv, NodeView::Branch(ncv)))) by {
                                    assert forall|j: int| 0 <= j < e1.len() implies #[trigger] e1[j] == e0.update(idx as int, (hv, NodeView::Branch(ncv)))[j] by {
                                        lemma_nodes_view_index(es@, j);
                                        lemma_nodes_view_index(before, j);
                                    }
                                }
                                assert forall|j: int| 0 <= j < idx implies e1[j].0 != hv by {}
                                lemma_lookup_first(e1, idx as int);
                                assert forall|kk: Seq<char>| kk != hv implies #[trigger] lookup(e1, kk) == lookup(e0, kk) by {
                                    lemma_lookup_update(e0, idx as int, NodeView::Branch(ncv), kk);
                                }
                                lemma_branch_insert(e0, e1, hv, rv, p@, oc, ncv, vv);
                                assert(tree_wf(seq![(hv, NodeView::Branch(ncv))]));
                                lemma_wf_update(e0, idx as int, hv, NodeView::Branch(ncv));
                            }
                            es
                        },
                        Node::Leaf(x) => {
                            proof {
                                assert(!hv.contains('.'));
                                lemma_first_index_of(hv, '.');
                                assert(node_lookup(e0, hv) == Some(x@));
                                assert(dotted_prefix(hv, p@)) by {
                                    assert(p@.subrange(0, hv.len() + 1int) =~= hv + seq!['.']);
                                }
                            }
                            es
                        },
                    }
                },
                None => {
                    proof {
                        assert forall|j: int| 0 <= j < e0.len() implies e0[j].0 != hv by {
                            lemma_nodes_view_index(es@, j);
                        }
                        lemma_lookup_absent(e0, hv);
                        lemma_first_key(e0, hv, e0.len() as int);
                    }
                    let empty: Vec<(String, Node)> = Vec::new();
                    proof {
                        assert(nodes_view(empty@) =~= Seq::<(Seq<char>, NodeView)>::empty());
                        assert forall|q: Seq<char>| #[trigger] node_lookup(nodes_view(empty@), q) is None by {
                            lemma_split_shorter(q);
                        }
                    }
                    let nc = insert_node(empty, rest.as_str(), v);
                    let ghost ncv = nodes_view(nc@);
                    proof {
                        lemma_branch_view(nc);
                    }
                    let ghost before = es@;
                    es.push((h, Node::Branch(nc)));
                    proof {
                        let e1 = nodes_view(es@);
                        assert(e1 =~= e0.push((hv, NodeView::Branch(ncv)))) by {
                            assert forall|j: int| 0 <= j < e1.len() implies #[trigger] e1[j] == e0.push((hv, NodeView::Branch(ncv)))[j] by {
                                lemma_nodes_view_index(es@, j);
                                if j < before.len() {
                                    lemma_nodes_view_index(before, j);
                                }
                            }
                        }
                        lemma_lookup_first(e1, e0.len() as int);
                        assert forall|kk: Seq<char>| kk != hv implies #[trigger] lookup(e1, kk) == lookup(e0, kk) by {
                            lemma_lookup_push(e0, (hv, NodeView::Branch(ncv)), kk);
                        }
                        assert(nodes_view(empty@) =~= Seq::<(Seq<char>, NodeView)>::empty());
                        lemma_branch_insert(e0, e1, hv, rv, p@, Seq::empty(), ncv, vv);
                        assert(tree_wf(seq![(hv, NodeView::Branch(ncv))]));
                        lemma_wf_push(e0, hv, NodeView::Branch(ncv));
                    }
                    es
                },
            }
        },
        None => {
            proof {
                lemma_no_dot_of_split_none(p@);
            }
            let key = String::from_str(p);
            let ghost before = es@;
            match find_key(&es, p) {
                Some(idx) => {
                    proof {
                        lemma_nodes_view_index(es@, idx as int);
                        assert forall|j: int| 0 <= j < idx implies e0[j].0 != p@ by {
                            lemma_nodes_view_index(before, j);
                        }
                        lemma_first_key(e0, p@, idx as int);
                    }
                    let _old = es.remove(idx);
                    es.insert(idx, (key, Node::Leaf(v)));
                    proof {
                        let e1 = nodes_view(es@);
                        assert(e1 =~= e0.update(idx as int, (p@, NodeView::Leaf(vv)))) by {
                            assert forall|j: int| 0 <= j < e1.len() implies #[trigger] e1[j] == e0.update(idx as int, (p@, NodeView::Leaf(vv)))[j] by {
                                lemma_nodes_view_index(es@, j);
                                lemma_nodes_view_index(before, j);
                            }
                        }
                        assert forall|j: int| 0 <= j < idx implies e1[j].0 != p@ by {
                            lemma_nodes_view_index(before, j);
                        }
                        lemma_lookup_first(e1, idx as int);
                        assert forall|kk: Seq<char>| kk != p@ implies #[trigger] lookup(e1, kk) == lookup(e0, kk) by {
                            lemma_lookup_update(e0, idx as int, NodeView::Leaf(vv), kk);
                        }
                        lemma_leaf_insert(e0, e1, p@, vv);
                        assert(tree_wf(seq![(p@, NodeView::Leaf(vv))]));
                        lemma_wf_update(e0, idx as int, p@, NodeView::Leaf(vv));
                    }
                    es
                },
                None => {
                    proof {
                        assert forall|j: int| 0 <= j < e0.len() implies e0[j].0 != p@ by {
                            lemma_nodes_view_index(before, j);
                        }
                        lemma_first_key(e0, p@, e0.len() as int);
                    }
                    es.push((key, Node::Leaf(v)));
                    proof {
                        let e1 = nodes_view(es@);
                        assert(e1 =~= e0.push((p@, NodeView::Leaf(vv)))) by {
                            assert forall|j: int| 0 <= j < e1.len() implies #[trigger] e1[j] == e0.push((p@, NodeView::Leaf(vv)))[j] by {
                                lemma_nodes_view_index(es@, j);
                                if j < before.len() {
                                    lemma_nodes_view_index(before, j);
                                }
                            }
                        }
                        assert forall|j: int| 0 <= j < e0.len() implies e1[j].0 != p@ by {
                            lemma_nodes_view_index(before, j);
                        }
                        lemma_lookup_first(e1, e0.len() as int);
                        assert forall|kk: Seq<char>| kk != p@ implies #[trigger] lookup(e1, kk) == lookup(e0, kk) by {
                            lemma_lookup_push(e0, (p@, NodeView::Leaf(vv)), kk);
                        }
                        lemma_leaf_insert(e0, e1, p@, vv);
                        assert(tree_wf(seq![(p@, NodeView::Leaf(vv))]));
                        lemma_wf_push(e0, p@, NodeView::Leaf(vv));
                    }
                    es
                },
            }
        },
    }
}

} // verus!

verus! {

/// The value a node of the tree becomes: a leaf its value, a branch a map.
spec fn node_ctx(n: NodeView) -> CtxView
    decreases n,
{
    match n {
        NodeView::Leaf(v) => v,
        NodeView::Branch(c) => CtxView::Object(
            Seq::new(
                c.len(),
                |i: int| if 0 <= i < c.len() { (c[i].0, node_ctx(c[i].1)) } else { (Seq::empty(), CtxView::Str(Seq::empty())) },
            ),
        ),
    }
}

spec fn ctx_entries(c: Seq<(Seq<char>, NodeView)>) -> Seq<(Seq<char>, CtxView)> {
    c.map_values(|e: (Seq<char>, NodeView)| (e.0, node_ctx(e.1)))
}

proof fn lemma_branch_ctx(c: Seq<(Seq<char>, NodeView)>)
    ensures
        node_ctx(NodeView::Branch(c)) == CtxView::Object(ctx_entries(c)),
{
    assert(ctx_entries(c) =~= match node_ctx(NodeView::Branch(c)) { CtxView::Object(e) => e, _ => Seq::empty() });
}

proof fn lemma_lookup_ctx_entries(c: Seq<(Seq<char>, NodeView)>, k: Seq<char>)
    ensures
        lookup(ctx_entries(c), k) == match lookup(c, k) {
            Some(n) => Some(node_ctx(n)),
            None => None,
        },
    decreases c.len(),
{
    if c.len() > 0 {
        assert(ctx_entries(c).drop_first() =~= ctx_entries(c.drop_first()));
        lemma_lookup_ctx_entries(c.drop_first(), k);
    }
}

/// A value found at a path of the tree's leaves is found there in the tree's value too; and a
/// value found in the tree's value is a leaf of the tree, a map on the way to a leaf, or lies
/// inside a leaf's value.
proof fn lemma_tree_ctx_lookup(c: Seq<(Seq<char>, NodeView)>, q: Seq<char>)
    requires
        tree_wf(c),
    ensures
        node_lookup(c, q) matches Some(v) ==> ctx_lookup(node_ctx(NodeView::Branch(c)), q) == Some(v),
        ctx_lookup(node_ctx(NodeView::Branch(c)), q) matches Some(v) ==> node_lookup(c, q) == Some(v)
            || (v is Object && keys_unique(v->Object_0) && exists|q2: Seq<char>| #[trigger] node_lookup(c, q2) is Some && dotted_prefix(q, q2))
            || exists|q2: Seq<char>| #[trigger] node_lookup(c, q2) is Some && dotted_prefix(q2, q),
        keys_unique(ctx_entries(c)),
    decreases q.len(),
{
    lemma_branch_ctx(c);
    lemma_split_shorter(q);
    lemma_ctx_entries_unique(c);
    let t = node_ctx(NodeView::Branch(c));
    match split_once(q, '.') {
        Some((h, r)) => {
            lemma_lookup_ctx_entries(c, h);
            match lookup(c, h) {
                Some(NodeView::Branch(c2)) => {
                    lemma_lookup_wf(c, h);
                    lemma_tree_ctx_lookup(c2, r);
                    assert(ctx_lookup(t, q) == ctx_lookup(node_ctx(NodeView::Branch(c2)), r));
                    assert(node_lookup(c, q) == node_lookup(c2, r));
                    if let Some(v) = ctx_lookup(t, q) {
                        if node_lookup(c, q) != Some(v) {
                            if v is Object && keys_unique(v->Object_0) && exists|q2: Seq<char>| #[trigger] node_lookup(c2, q2) is Some && dotted_prefix(r, q2) {
                                let q2 = choose|q2: Seq<char>| #[trigger] node_lookup(c2, q2) is Some && dotted_prefix(r, q2);
                                lemma_split_concat(h, q2);
                                lemma_dotted_same_head(h, r, q2);
                                assert(node_lookup(c, h + seq!['.'] + q2) is Some);
                            } else {
                                let q2 = choose|q2: Seq<char>| #[trigger] node_lookup(c2, q2) is Some && dotted_prefix(q2, r);
                                lemma_split_concat(h, q2);
                                lemma_dotted_same_head(h, q2, r);
                                assert(node_lookup(c, h + seq!['.'] + q2) is Some);
                            }
                        }
                    }
                },
                Some(NodeView::Leaf(x)) => {
                    assert(ctx_lookup(t, q) == ctx_lookup(x, r));
                    lemma_first_index_of(h, '.');
                    assert(split_once(h, '.') is None);
                    assert(node_lookup(c, h) == Some(x));
                    assert(dotted_prefix(h, q)) by {
                        assert(q.subrange(0, h.len() + 1int) =~= h + seq!['.']);
                    }
                },
                None => {
                    assert(ctx_lookup(t, q) is None);
                },
            }
        },
        None => {
            lemma_lookup_ctx_entries(c, q);
            assert(ctx_lookup(t, q) == lookup(ctx_entries(c), q));
            if let Some(NodeView::Branch(c2)) = lookup(c, q) {
                lemma_lookup_wf(c, q);
                lemma_exists_leaf(c2);
                let q3 = choose|q3: Seq<char>| #[trigger] node_lookup(c2, q3) is Some;
                lemma_no_dot_of_split_none(q);
                lemma_split_concat(q, q3);
                assert(node_lookup(c, q + seq!['.'] + q3) is Some);
                assert(dotted_prefix(q, q + seq!['.'] + q3)) by {
                    assert((q + seq!['.'] + q3).subrange(0, q.len() + 1int) =~= q + seq!['.']);
                }
                lemma_branch_ctx(c2);
                lemma_ctx_entries_unique(c2);
            }
        },
    }
}

proof fn lemma_ctx_entries_unique(c: Seq<(Seq<char>, NodeView)>)
    requires
        keys_unique(c),
    ensures
        keys_unique(ctx_entries(c)),
{
    let e = ctx_entries(c);
    assert forall|i: int, j: int| 0 <= i < j < e.len() implies e[i].0 != e[j].0 by {
        assert(e[i].0 == c[i].0);
        assert(e[j].0 == c[j].0);
    }
}

/// Turns the tree into the value it stands for.
fn node_into_ctx(n: Node) -> (r: CtxValue)
    ensures
        r@ == node_ctx(node_view(n)),
    decreases n,
{
    match n {
        Node::Leaf(v) => v,
        Node::Branch(es) => {
            let ghost ev = nodes_view(es@);
            proof {
                lemma_branch_view(es);
                lemma_branch_ctx(ev);
            }
            let ghost orig = es@;
            let ghost ov = es;
            let mut out: Vec<(String, CtxValue)> = Vec::new();
            let mut i: usize = 0;
            let mut es = es;
            // Entries are moved out one by one; `es` keeps its length with placeholders.
            while i < es.len()
                invariant
                    i <= es@.len(),
                    es@.len() == orig.len(),
                    forall|j: int| i <= j < orig.len() ==> es@[j] == orig[j],
                    out@.len() == i,
                    forall|j: int| 0 <= j < i ==> (#[trigger] out@[j]).0@ == orig[j].0@ && out@[j].1@ == node_ctx(node_view(orig[j].1)),
                    n == Node::Branch(ov),
                    ov@ == orig,
                decreases es@.len() - i,
            {
                let (k, child) = es.remove(i);
                proof {
                    assert(decreases_to!(n => n->Branch_0));
                    assert(decreases_to!(ov => ov@));
                    assert(decreases_to!(ov@ => ov@[i as int]));
                    assert(decreases_to!(ov@[i as int] => ov@[i as int].1));
                    assert(decreases_to!(n => child));
                }
                let c = node_into_ctx(child);
                es.insert(i, (String::new(), Node::Leaf(CtxValue::Str(String::new()))));
                out.push((k, c));
                i = i + 1;
            }
            let r = CtxValue::Object(out);
            proof {
                assert(r@ == node_ctx(NodeView::Branch(ev))) by {
                    assert forall|j: int| 0 <= j < orig.len() implies #[trigger] ctx_entries(ev)[j] == (out@[j].0@, out@[j].1@) by {
                        lemma_nodes_view_index(orig, j);
                    }
                    assert(ctx_entries(ev) =~= match r@ { CtxView::Object(e) => e, _ => Seq::empty() });
                }
            }
            r
        },
    }
}

} // verus!

verus! {

pub open spec fn vars_view(v: Seq<(String, CtxValue)>) -> Seq<(Seq<char>, CtxView)> {
    v.map_values(|e: (String, CtxValue)| (e.0@, e.1@))
}

/// The variables can be gathered one after the other: no path followed by a dot starts a later
/// path (no variable stands where a later one needs a map).
pub open spec fn gatherable<V>(vars: Seq<(Seq<char>, V)>) -> bool {
    forall|i: int, j: int| #![trigger vars[i], vars[j]] 0 <= i < j < vars.len() ==> !dotted_prefix(vars[i].0, vars[j].0)
}

/// Among the first `k` variables, variable `j` is still in place: no later one among them has
/// its path, or a path on the way to it.
pub open spec fn visible_upto<V>(vars: Seq<(Seq<char>, V)>, k: int, j: int) -> bool {
    forall|m: int| j < m < k ==> (#[trigger] vars[m]).0 != vars[j].0 && !dotted_prefix(vars[m].0, vars[j].0)
}

/// Variable `j` is in place: the later variables neither repeat its path nor replace a map on
/// the way to it (the later value wins).
pub open spec fn visible<V>(vars: Seq<(Seq<char>, V)>, j: int) -> bool {
    visible_upto(vars, vars.len() as int, j)
}

/// Whether the map `c` holds exactly the variables `vars`, each at its dotted path, the later
/// of two at one path winning: every variable in place (see [`visible`]) is found at its path,
/// and whatever is found is such a variable, a map on the way to one, or lies inside one's value
/// (so there are no other keys, and no maps that lead to no variable); the map and the maps on
/// the way to the variables hold no key twice.
pub open spec fn holds_exactly(c: CtxView, vars: Seq<(Seq<char>, CtxView)>) -> bool {
    &&& c is Object
    &&& keys_unique(c->Object_0)
    &&& forall|i: int| 0 <= i < vars.len() && visible(vars, i) ==> ctx_lookup(c, #[trigger] vars[i].0) == Some(vars[i].1)
    &&& forall|q: Seq<char>| match #[trigger] ctx_lookup(c, q) {
        Some(v) => (exists|i: int| 0 <= i < vars.len() && visible(vars, i) && #[trigger] vars[i] == (q, v))
            || (v is Object && keys_unique(v->Object_0) && exists|i: int|
                0 <= i < vars.len() && visible(vars, i) && dotted_prefix(q, #[trigger] vars[i].0))
            || (exists|i: int| 0 <= i < vars.len() && visible(vars, i) && dotted_prefix(#[trigger] vars[i].0, q)),
        None => true,
    }
}

/// The tree that putting the variables one after the other into an empty tree builds.
spec fn gather(vars: Seq<(Seq<char>, CtxView)>) -> Seq<(Seq<char>, NodeView)>
    decreases vars.len(),
{
    if vars.len() == 0 {
        Seq::empty()
    } else {
        tree_insert(gather(vars.drop_last()), vars.last().0, vars.last().1)
    }
}

/// The map that [`build_context`] builds of `vars`: one value for each list of variables, which
/// [`holds_exactly`] describes.
pub closed spec fn gathered(vars: Seq<(Seq<char>, CtxView)>) -> CtxView {
    node_ctx(NodeView::Branch(gather(vars)))
}

/// Gathers variables named by dotted paths (e.g. `vade.app.name`) into nested maps; of two
/// variables at one path the later wins, and so does a later variable at a path on the way to
/// earlier ones.
pub fn build_context(vars: Vec<(String, CtxValue)>) -> (r: CtxValue)
    requires
        gatherable(vars_view(vars@)),
    ensures
        holds_exactly(r@, vars_view(vars@)),
        r@ == gathered(vars_view(vars@)),
{
    let ghost vv = vars_view(vars@);
    let ghost n = vars@.len();
    let mut es: Vec<(String, Node)> = Vec::new();
    let mut rest = vars;
    let ghost mut k: int = 0;
    proof {
        assert(nodes_view(es@) =~= Seq::<(Seq<char>, NodeView)>::empty());
        assert forall|q: Seq<char>| #[trigger] node_lookup(nodes_view(es@), q) is None by {
            lemma_split_shorter(q);
        }
        assert(vars_view(rest@) =~= vv.subrange(0, n as int));
        assert(vv.subrange(0, 0) =~= Seq::<(Seq<char>, CtxView)>::empty());
    }
    while rest.len() > 0
        invariant
            0 <= k <= n,
            n == vv.len(),
            vars_view(rest@) == vv.subrange(k, n as int),
            gatherable(vv),
            tree_wf(nodes_view(es@)),
            nodes_view(es@) == gather(vv.subrange(0, k)),
            forall|j: int| 0 <= j < k && visible_upto(vv, k, j) ==> node_lookup(nodes_view(es@), #[trigger] vv[j].0) == Some(vv[j].1),
            forall|q: Seq<char>| match #[trigger] node_lookup(nodes_view(es@), q) {
                Some(x) => exists|j: int| 0 <= j < k && visible_upto(vv, k, j) && #[trigger] vv[j] == (q, x),
                None => true,
            },
        decreases rest@.len(),
    {
        let ghost old_rest = rest@;
        let (p, v) = rest.remove(0);
        let ghost e0 = nodes_view(es@);
        proof {
            assert(vars_view(old_rest)[0] == (p@, v@));
            assert(vars_view(old_rest).len() == n - k);
            assert(vv.subrange(k, n as int)[0] == vv[k]);
            assert(vv[k] == (p@, v@));
            assert(vars_view(rest@) =~= vv.subrange(k + 1, n as int)) by {
                assert(vars_view(old_rest).drop_first() =~= vars_view(rest@));
            }
            assert forall|q: Seq<char>| #[trigger] node_lookup(e0, q) is Some implies !dotted_prefix(q, p@) by {
                let x = node_lookup(e0, q).unwrap();
                let j = choose|j: int| 0 <= j < k && visible_upto(vv, k, j) && #[trigger] vv[j] == (q, x);
                assert(vv[j].0 == q);
                assert(vv[k].0 == p@);
            }
        }
        es = insert_node(es, p.as_str(), v);
        proof {
            let e1 = nodes_view(es@);
            assert(vv.subrange(0, k + 1).drop_last() =~= vv.subrange(0, k));
            assert forall|j: int| 0 <= j < k + 1 && visible_upto(vv, k + 1, j) implies node_lookup(e1, #[trigger] vv[j].0) == Some(vv[j].1) by {
                if j < k {
                    assert(vv[k].0 == p@);
                    assert(vv[k].0 != vv[j].0 && !dotted_prefix(vv[k].0, vv[j].0));
                    assert(!dotted_prefix(vv[j].0, vv[k].0));
                    assert(indep(vv[j].0, p@));
                    assert(visible_upto(vv, k, j));
                }
            }
            assert forall|q: Seq<char>| match #[trigger] node_lookup(e1, q) {
                Some(x) => exists|j: int| 0 <= j < k + 1 && visible_upto(vv, k + 1, j) && #[trigger] vv[j] == (q, x),
                None => true,
            } by {
                if let Some(x) = node_lookup(e1, q) {
                    if q == p@ {
                        assert(vv[k] == (q, x));
                        assert(visible_upto(vv, k + 1, k));
                    } else {
                        let y = node_lookup(e0, q).unwrap();
                        let j = choose|j: int| 0 <= j < k && visible_upto(vv, k, j) && #[trigger] vv[j] == (q, y);
                        assert(vv[k].0 == p@);
                        assert(!dotted_prefix(vv[j].0, vv[k].0));
                        if dotted_prefix(p@, q) {
                            lemma_dotted_rest(p@, q);
                            lemma_leaf_blocks_below(e1, p@, q.subrange(p@.len() + 1int, q.len() as int));
                        }
                        assert(indep(q, p@));
                        assert(vv[j] == (q, x));
                        assert(visible_upto(vv, k + 1, j));
                    }
                }
            }
            k = k + 1;
        }
    }
    let ghost ef = nodes_view(es@);
    proof {
        lemma_branch_view(es);
        assert(vv.subrange(0, n as int) =~= vv);
    }
    let r = node_into_ctx(Node::Branch(es));
    proof {
        lemma_branch_ctx(ef);
        lemma_ctx_entries_unique(ef);
        assert forall|i: int| 0 <= i < vv.len() && visible(vv, i) implies ctx_lookup(r@, #[trigger] vv[i].0) == Some(vv[i].1) by {
            lemma_tree_ctx_lookup(ef, vv[i].0);
        }
        assert forall|q: Seq<char>| match #[trigger] ctx_lookup(r@, q) {
            Some(v) => (exists|i: int| 0 <= i < vv.len() && visible(vv, i) && #[trigger] vv[i] == (q, v))
                || (v is Object && keys_unique(v->Object_0) && exists|i: int|
                    0 <= i < vv.len() && visible(vv, i) && dotted_prefix(q, #[trigger] vv[i].0))
                || (exists|i: int| 0 <= i < vv.len() && visible(vv, i) && dotted_prefix(#[trigger] vv[i].0, q)),
            None => true,
        } by {
            lemma_tree_ctx_lookup(ef, q);
            if let Some(v) = ctx_lookup(r@, q) {
                if node_lookup(ef, q) == Some(v) {
                    let j = choose|j: int| 0 <= j < k && visible_upto(vv, k, j) && #[trigger] vv[j] == (q, v);
                    assert(visible(vv, j));
                } else if v is Object && keys_unique(v->Object_0) && exists|q2: Seq<char>| #[trigger] node_lookup(ef, q2) is Some && dotted_prefix(q, q2) {
                    let q2 = choose|q2: Seq<char>| #[trigger] node_lookup(ef, q2) is Some && dotted_prefix(q, q2);
                    let x = node_lookup(ef, q2).unwrap();
                    let j = choose|j: int| 0 <= j < k && visible_upto(vv, k, j) && #[trigger] vv[j] == (q2, x);
                    assert(visible(vv, j) && dotted_prefix(q, vv[j].0));
                } else {
                    let q2 = choose|q2: Seq<char>| #[trigger] node_lookup(ef, q2) is Some && dotted_prefix(q2, q);
                    let x = node_lookup(ef, q2).unwrap();
                    let j = choose|j: int| 0 <= j < k && visible_upto(vv, k, j) && #[trigger] vv[j] == (q2, x);
                    assert(visible(vv, j) && dotted_prefix(vv[j].0, q));
                }
            }
        }
    }
    r
}

} // verus!

verus! {

impl CtxValue {
    /// A copy of the value.
    pub fn duplicate(&self) -> (r: CtxValue)
        ensures
            r@ == self@,
        decreases self,
    {
        match self {
            CtxValue::Str(s) => CtxValue::Str(s.clone()),
            CtxValue::Scalar(v) => CtxValue::Scalar(v.duplicate()),
            CtxValue::List(items) => {
                let mut out: Vec<CtxValue> = Vec::new();
                let mut i: usize = 0;
                while i < items.len()
                    invariant
                        i <= items@.len(),
                        out@.len() == i,
                        forall|k: int| 0 <= k < i ==> (#[trigger] out@[k])@ == items@[k]@,
                        forall|k: int| 0 <= k < items@.len() ==> decreases_to!(self => #[trigger] items@[k]),
                    decreases items@.len() - i,
                {
                    out.push(items[i].duplicate());
                    i = i + 1;
                }
                let r = CtxValue::List(out);
                assert(r@->List_0 =~= self@->List_0);
                r
            },
            CtxValue::Object(entries) => {
                let mut out: Vec<(String, CtxValue)> = Vec::new();
                let mut i: usize = 0;
                while i < entries.len()
                    invariant
                        i <= entries@.len(),
                        out@.len() == i,
                        forall|k: int| 0 <= k < i ==> (#[trigger] out@[k]).0@ == entries@[k].0@ && out@[k].1@ == entries@[k].1@,
                        forall|k: int| 0 <= k < entries@.len() ==> decreases_to!(self => #[trigger] entries@[k].1),
                    decreases entries@.len() - i,
                {
                    out.push((entries[i].0.clone(), entries[i].1.duplicate()));
                    i = i + 1;
                }
                let r = CtxValue::Object(out);
                assert(r@->Object_0 =~= self@->Object_0);
                r
            },
        }
    }
}

/// The context `base` with the user variables `vars` added under the name `vars`, ahead of
/// the base variables.
pub fn with_vars(base: CtxValue, vars: CtxValue) -> (r: CtxValue)
    requires
        base@ is Object,
    ensures
        r@ == CtxView::Object(seq![("vars"@, vars@)] + base@->Object_0),
{
    match base {
        CtxValue::Object(entries) => {
            let ghost before = base@->Object_0;
            let mut entries = entries;
            entries.insert(0, (String::from_str("vars"), vars));
            let r = CtxValue::Object(entries);
            assert(r@->Object_0 =~= seq![("vars"@, vars@)] + before);
            r
        },
        other => other,
    }
}

} // verus!

verus! {

/// The first segment of a dotted path (`a` of `a.b.c`).
pub open spec fn first_segment(p: Seq<char>) -> Seq<char> {
    match split_once(p, '.') {
        Some((h, _)) => h,
        None => p,
    }
}

/// A template's variables live beside the base variables without touching them: in the context
/// that [`with_vars`] builds, `vars` gives the variables, and every path that does not start
/// with `vars` finds what it found in the base context.
pub proof fn lemma_with_vars_lookup(base: Seq<(Seq<char>, CtxView)>, v: CtxView, q: Seq<char>)
    ensures
        ctx_lookup(CtxView::Object(seq![("vars"@, v)] + base), "vars"@) == Some(v),
        first_segment(q) != "vars"@ ==> ctx_lookup(CtxView::Object(seq![("vars"@, v)] + base), q)
            == ctx_lookup(CtxView::Object(base), q),
{
    let entries = seq![("vars"@, v)] + base;
    assert(entries.drop_first() =~= base);
    reveal_strlit("vars");
    lemma_first_index_of("vars"@, '.');
    assert(split_once("vars"@, '.') is None);
    lemma_split_shorter(q);
}

} // verus!
