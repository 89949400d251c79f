//! The specification tree: a trie over qualified-path segments collecting the
//! user-configured record and union markers.
//!
//! Internal nodes stand for modules; leaves mark a record (with its set of
//! required field names) or a union. The trie is built by `push`, which
//! creates intermediate module nodes on demand and reports a duplicate when a
//! leaf already occupies the target path, and read by `get_leaf`, which
//! returns no leaf for a path naming only an intermediate module.

use vstd::prelude::*;

verus! {

/// A configured record marker: the record's fully-qualified name and the
/// names of its required fields.
#[derive(Debug, PartialEq)]
pub struct StructSpec {
    pub fqn: Vec<String>,
    pub fields: Vec<String>,
}

/// A configured union marker: the union's fully-qualified name.
#[derive(Debug, PartialEq)]
pub struct EnumSpec {
    pub fqn: Vec<String>,
}

/// A leaf of the specification tree: a record or a union marker.
#[derive(Debug, PartialEq)]
pub enum SpecTreeLeaf {
    Struct(StructSpec),
    Enum(EnumSpec),
}

/// One node of the trie. Children and leaves are kept in insertion order;
/// their keys (the last segment of their qualified names) are unique among
/// well-formed trees.
#[derive(Debug, PartialEq)]
pub struct SpecTreeNode {
    pub fqn: Vec<String>,
    pub nodes: Vec<SpecTreeNode>,
    pub leafs: Vec<SpecTreeLeaf>,
}

/// The specification tree: a trie rooted at an anonymous module node.
#[derive(Debug, PartialEq)]
pub struct SpecTree {
    pub inner: SpecTreeNode,
}

/// Reported when a `push` targets a fully-qualified path that already holds
/// a leaf.
#[derive(Debug, PartialEq)]
pub struct DuplicateSpecError {
    pub fqn: Vec<String>,
}

// ---------------------------------------------------------------------------
// Mathematical models
// ---------------------------------------------------------------------------

pub ghost struct StructSpecV {
    pub fqn: Seq<Seq<char>>,
    pub fields: Seq<Seq<char>>,
}

pub ghost struct EnumSpecV {
    pub fqn: Seq<Seq<char>>,
}

pub ghost enum SpecTreeLeafV {
    Struct(StructSpecV),
    Enum(EnumSpecV),
}

pub ghost struct SpecTreeNodeV {
    pub fqn: Seq<Seq<char>>,
    pub nodes: Seq<SpecTreeNodeV>,
    pub leafs: Seq<SpecTreeLeafV>,
}

impl View for StructSpec {
    type V = StructSpecV;

    open spec fn view(&self) -> StructSpecV {
        StructSpecV { fqn: self.fqn.deep_view(), fields: self.fields.deep_view() }
    }
}

impl View for EnumSpec {
    type V = EnumSpecV;

    open spec fn view(&self) -> EnumSpecV {
        EnumSpecV { fqn: self.fqn.deep_view() }
    }
}

impl View for SpecTreeLeaf {
    type V = SpecTreeLeafV;

    open spec fn view(&self) -> SpecTreeLeafV {
        match self {
            SpecTreeLeaf::Struct(s) => SpecTreeLeafV::Struct(s@),
            SpecTreeLeaf::Enum(e) => SpecTreeLeafV::Enum(e@),
        }
    }
}

pub open spec fn node_view(n: SpecTreeNode) -> SpecTreeNodeV
    decreases n,
{
    SpecTreeNodeV {
        fqn: n.fqn.deep_view(),
        nodes: nodes_view(n.nodes@),
        leafs: Seq::new(n.leafs@.len(), |i: int| n.leafs@[i]@),
    }
}

pub open spec fn nodes_view(ns: Seq<SpecTreeNode>) -> Seq<SpecTreeNodeV>
    decreases ns,
{
    if ns.len() == 0 {
        Seq::empty()
    } else {
        nodes_view(ns.drop_last()).push(node_view(ns.last()))
    }
}

impl View for SpecTreeNode {
    type V = SpecTreeNodeV;

    open spec fn view(&self) -> SpecTreeNodeV {
        node_view(*self)
    }
}

impl View for SpecTree {
    type V = SpecTreeNodeV;

    open spec fn view(&self) -> SpecTreeNodeV {
        node_view(self.inner)
    }
}

pub proof fn lemma_nodes_view_len(ns: Seq<SpecTreeNode>)
    ensures
        nodes_view(ns).len() == ns.len(),
    decreases ns.len(),
{
    if ns.len() > 0 {
        lemma_nodes_view_len(ns.drop_last());
    }
}

pub proof fn lemma_nodes_view_index(ns: Seq<SpecTreeNode>, i: int)
    requires
        0 <= i < ns.len(),
    ensures
        nodes_view(ns).len() == ns.len(),
        nodes_view(ns)[i] == node_view(ns[i]),
    decreases ns.len(),
{
    lemma_nodes_view_len(ns);
    if ns.len() > 0 && i < ns.len() - 1 {
        lemma_nodes_view_index(ns.drop_last(), i);
    }
}

// ---------------------------------------------------------------------------
// Lookup model
// ---------------------------------------------------------------------------

/// The fully-qualified name carried by a leaf.
pub open spec fn leaf_fqn(l: SpecTreeLeafV) -> Seq<Seq<char>> {
    match l {
        SpecTreeLeafV::Struct(s) => s.fqn,
        SpecTreeLeafV::Enum(e) => e.fqn,
    }
}

/// Whether a leaf is keyed by `seg` (the last segment of its name).
pub open spec fn leaf_matches(l: SpecTreeLeafV, seg: Seq<char>) -> bool {
    leaf_fqn(l).len() > 0 && leaf_fqn(l).last() == seg
}

/// Whether a child node is keyed by `seg` (the last segment of its name).
pub open spec fn node_matches(n: SpecTreeNodeV, seg: Seq<char>) -> bool {
    n.fqn.len() > 0 && n.fqn.last() == seg
}

/// Index of the first leaf keyed by `seg`, or -1.
pub open spec fn find_leaf_idx(ls: Seq<SpecTreeLeafV>, seg: Seq<char>) -> int
    decreases ls.len(),
{
    if ls.len() == 0 {
        -1
    } else if leaf_matches(ls[0], seg) {
        0
    } else {
        let r = find_leaf_idx(ls.drop_first(), seg);
        if r < 0 {
            -1
        } else {
            r + 1
        }
    }
}

/// Index of the first child node keyed by `seg`, or -1.
pub open spec fn find_node_idx(ns: Seq<SpecTreeNodeV>, seg: Seq<char>) -> int
    decreases ns.len(),
{
    if ns.len() == 0 {
        -1
    } else if node_matches(ns[0], seg) {
        0
    } else {
        let r = find_node_idx(ns.drop_first(), seg);
        if r < 0 {
            -1
        } else {
            r + 1
        }
    }
}

/// The leaf stored at `path`, if any. A path naming only an intermediate
/// module, an unknown path and the empty path all yield `None`.
pub open spec fn get_spec(t: SpecTreeNodeV, path: Seq<Seq<char>>) -> Option<SpecTreeLeafV>
    decreases t,
{
    if path.len() == 0 {
        None
    } else if path.len() == 1 {
        let i = find_leaf_idx(t.leafs, path[0]);
        if 0 <= i < t.leafs.len() {
            Some(t.leafs[i])
        } else {
            None
        }
    } else {
        let i = find_node_idx(t.nodes, path[0]);
        if 0 <= i < t.nodes.len() {
            get_spec(t.nodes[i], path.drop_first())
        } else {
            None
        }
    }
}

/// Characterization of `find_leaf_idx`: -1 means no leaf is keyed by `seg`;
/// otherwise the result is the first index keyed by `seg`.
pub proof fn lemma_find_leaf_idx(ls: Seq<SpecTreeLeafV>, seg: Seq<char>)
    ensures
        find_leaf_idx(ls, seg) == -1 ==> forall|k: int|
            0 <= k < ls.len() ==> !leaf_matches(ls[k], seg),
        find_leaf_idx(ls, seg) != -1 ==> {
            &&& 0 <= find_leaf_idx(ls, seg) < ls.len()
            &&& leaf_matches(ls[find_leaf_idx(ls, seg)], seg)
            &&& forall|k: int| 0 <= k < find_leaf_idx(ls, seg) ==> !leaf_matches(ls[k], seg)
        },
    decreases ls.len(),
{
    if ls.len() > 0 && !leaf_matches(ls[0], seg) {
        let tail = ls.drop_first();
        lemma_find_leaf_idx(tail, seg);
        let r = find_leaf_idx(tail, seg);
        if r == -1 {
            assert forall|k: int| 0 <= k < ls.len() implies !leaf_matches(ls[k], seg) by {
                if k > 0 {
                    assert(tail[k - 1] == ls[k]);
                    assert(!leaf_matches(tail[k - 1], seg));
                }
            }
        } else {
            assert(find_leaf_idx(ls, seg) == r + 1);
            assert(ls[r + 1] == tail[r]);
            assert forall|k: int| 0 <= k < r + 1 implies !leaf_matches(ls[k], seg) by {
                if k > 0 {
                    assert(tail[k - 1] == ls[k]);
                    assert(!leaf_matches(tail[k - 1], seg));
                }
            }
        }
    }
}

/// Characterization of `find_node_idx`, as for `find_leaf_idx`.
pub proof fn lemma_find_node_idx(ns: Seq<SpecTreeNodeV>, seg: Seq<char>)
    ensures
        find_node_idx(ns, seg) == -1 ==> forall|k: int|
            0 <= k < ns.len() ==> !node_matches(ns[k], seg),
        find_node_idx(ns, seg) != -1 ==> {
            &&& 0 <= find_node_idx(ns, seg) < ns.len()
            &&& node_matches(ns[find_node_idx(ns, seg)], seg)
            &&& forall|k: int| 0 <= k < find_node_idx(ns, seg) ==> !node_matches(ns[k], seg)
        },
    decreases ns.len(),
{
    if ns.len() > 0 && !node_matches(ns[0], seg) {
        let tail = ns.drop_first();
        lemma_find_node_idx(tail, seg);
        let r = find_node_idx(tail, seg);
        if r == -1 {
            assert forall|k: int| 0 <= k < ns.len() implies !node_matches(ns[k], seg) by {
                if k > 0 {
                    assert(tail[k - 1] == ns[k]);
                    assert(!node_matches(tail[k - 1], seg));
                }
            }
        } else {
            assert(find_node_idx(ns, seg) == r + 1);
            assert(ns[r + 1] == tail[r]);
            assert forall|k: int| 0 <= k < r + 1 implies !node_matches(ns[k], seg) by {
                if k > 0 {
                    assert(tail[k - 1] == ns[k]);
                    assert(!node_matches(tail[k - 1], seg));
                }
            }
        }
    }
}

// ---------------------------------------------------------------------------
// Insertion model
// ---------------------------------------------------------------------------

/// The tree after storing `leaf` under `path` (segments still to walk),
/// creating intermediate module nodes on demand. Appends the leaf even over
/// an occupied path; `push` rejects that case before ever getting here.
pub open spec fn push_spec(
    t: SpecTreeNodeV,
    path: Seq<Seq<char>>,
    leaf: SpecTreeLeafV,
) -> SpecTreeNodeV
    decreases path.len(),
{
    if path.len() == 0 {
        t
    } else if path.len() == 1 {
        SpecTreeNodeV { fqn: t.fqn, nodes: t.nodes, leafs: t.leafs.push(leaf) }
    } else {
        let i = find_node_idx(t.nodes, path[0]);
        if 0 <= i < t.nodes.len() {
            SpecTreeNodeV {
                fqn: t.fqn,
                nodes: t.nodes.update(i, push_spec(t.nodes[i], path.drop_first(), leaf)),
                leafs: t.leafs,
            }
        } else {
            let fresh = SpecTreeNodeV {
                fqn: t.fqn.push(path[0]),
                nodes: Seq::empty(),
                leafs: Seq::empty(),
            };
            SpecTreeNodeV {
                fqn: t.fqn,
                nodes: t.nodes.push(push_spec(fresh, path.drop_first(), leaf)),
                leafs: t.leafs,
            }
        }
    }
}

pub proof fn lemma_nodes_view_push(ns: Seq<SpecTreeNode>, x: SpecTreeNode)
    ensures
        nodes_view(ns.push(x)) == nodes_view(ns).push(node_view(x)),
{
    assert(ns.push(x).drop_last() =~= ns);
    assert(ns.push(x).last() == x);
    assert(nodes_view(ns.push(x)) == nodes_view(ns).push(node_view(x)));
}

pub proof fn lemma_nodes_view_update(ns: Seq<SpecTreeNode>, j: int, x: SpecTreeNode)
    requires
        0 <= j < ns.len(),
    ensures
        nodes_view(ns.update(j, x)) == nodes_view(ns).update(j, node_view(x)),
{
    lemma_nodes_view_len(ns);
    lemma_nodes_view_len(ns.update(j, x));
    assert forall|k: int| 0 <= k < ns.len() implies nodes_view(ns.update(j, x))[k] == nodes_view(
        ns,
    ).update(j, node_view(x))[k] by {
        lemma_nodes_view_index(ns.update(j, x), k);
        lemma_nodes_view_index(ns, k);
    }
    assert(nodes_view(ns.update(j, x)) =~= nodes_view(ns).update(j, node_view(x)));
}

// ---------------------------------------------------------------------------
// How push affects lookups
// ---------------------------------------------------------------------------

pub proof fn lemma_get_spec_empty(n: SpecTreeNodeV, q: Seq<Seq<char>>)
    requires
        n.nodes.len() == 0,
        n.leafs.len() == 0,
    ensures
        get_spec(n, q) is None,
{
    if q.len() == 1 {
        assert(find_leaf_idx(n.leafs, q[0]) == -1);
    } else if q.len() > 1 {
        assert(find_node_idx(n.nodes, q[0]) == -1);
    }
}

pub proof fn lemma_push_spec_fqn(t: SpecTreeNodeV, path: Seq<Seq<char>>, leaf: SpecTreeLeafV)
    ensures
        push_spec(t, path, leaf).fqn == t.fqn,
{
}

pub proof fn lemma_find_leaf_idx_push(ls: Seq<SpecTreeLeafV>, x: SpecTreeLeafV, seg: Seq<char>)
    ensures
        find_leaf_idx(ls, seg) != -1 ==> find_leaf_idx(ls.push(x), seg) == find_leaf_idx(ls, seg),
        find_leaf_idx(ls, seg) == -1 && leaf_matches(x, seg) ==> find_leaf_idx(ls.push(x), seg)
            == ls.len(),
        find_leaf_idx(ls, seg) == -1 && !leaf_matches(x, seg) ==> find_leaf_idx(ls.push(x), seg)
            == -1,
    decreases ls.len(),
{
    if ls.len() == 0 {
        assert(ls.push(x)[0] == x);
        assert(ls.push(x).drop_first() =~= Seq::<SpecTreeLeafV>::empty());
        assert(find_leaf_idx(Seq::<SpecTreeLeafV>::empty(), seg) == -1);
    } else {
        assert(ls.push(x)[0] == ls[0]);
        if !leaf_matches(ls[0], seg) {
            assert(ls.push(x).drop_first() =~= ls.drop_first().push(x));
            lemma_find_leaf_idx_push(ls.drop_first(), x, seg);
        }
    }
}

pub proof fn lemma_find_node_idx_push(ns: Seq<SpecTreeNodeV>, x: SpecTreeNodeV, seg: Seq<char>)
    ensures
        find_node_idx(ns, seg) != -1 ==> find_node_idx(ns.push(x), seg) == find_node_idx(ns, seg),
        find_node_idx(ns, seg) == -1 && node_matches(x, seg) ==> find_node_idx(ns.push(x), seg)
            == ns.len(),
        find_node_idx(ns, seg) == -1 && !node_matches(x, seg) ==> find_node_idx(ns.push(x), seg)
            == -1,
    decreases ns.len(),
{
    if ns.len() == 0 {
        assert(ns.push(x)[0] == x);
        assert(ns.push(x).drop_first() =~= Seq::<SpecTreeNodeV>::empty());
        assert(find_node_idx(Seq::<SpecTreeNodeV>::empty(), seg) == -1);
    } else {
        assert(ns.push(x)[0] == ns[0]);
        if !node_matches(ns[0], seg) {
            assert(ns.push(x).drop_first() =~= ns.drop_first().push(x));
            lemma_find_node_idx_push(ns.drop_first(), x, seg);
        }
    }
}

pub proof fn lemma_find_node_idx_update(
    ns: Seq<SpecTreeNodeV>,
    i: int,
    x: SpecTreeNodeV,
    seg: Seq<char>,
)
    requires
        0 <= i < ns.len(),
        x.fqn == ns[i].fqn,
    ensures
        find_node_idx(ns.update(i, x), seg) == find_node_idx(ns, seg),
    decreases ns.len(),
{
    let us = ns.update(i, x);
    if i == 0 {
        assert(us[0] == x);
        assert(node_matches(x, seg) == node_matches(ns[0], seg));
        if !node_matches(ns[0], seg) {
            assert(us.drop_first() =~= ns.drop_first());
        }
    } else {
        assert(us[0] == ns[0]);
        if !node_matches(ns[0], seg) {
            assert(us.drop_first() =~= ns.drop_first().update(i - 1, x));
            assert(ns.drop_first()[i - 1] == ns[i]);
            lemma_find_node_idx_update(ns.drop_first(), i - 1, x, seg);
        }
    }
}

/// How a push changes lookups: the pushed path now resolves to the new leaf,
/// and every other path resolves exactly as before.
pub proof fn lemma_push_spec_get(
    t: SpecTreeNodeV,
    path: Seq<Seq<char>>,
    leaf: SpecTreeLeafV,
    p: Seq<Seq<char>>,
)
    requires
        path.len() >= 1,
        leaf_fqn(leaf).len() > 0,
        leaf_fqn(leaf).last() == path.last(),
        get_spec(t, path) is None,
    ensures
        get_spec(push_spec(t, path, leaf), path) == Some(leaf),
        p != path ==> get_spec(push_spec(t, path, leaf), p) == get_spec(t, p),
    decreases path.len(),
{
    let t2 = push_spec(t, path, leaf);
    if path.len() == 1 {
        lemma_find_leaf_idx(t.leafs, path[0]);
        assert(find_leaf_idx(t.leafs, path[0]) == -1);
        lemma_find_leaf_idx_push(t.leafs, leaf, path[0]);
        assert(leaf_matches(leaf, path[0]));
        assert(get_spec(t2, path) == Some(leaf));
        if p != path {
            if p.len() == 1 {
                assert(p[0] != path[0]) by {
                    if p[0] == path[0] {
                        assert(p =~= path);
                    }
                }
                lemma_find_leaf_idx(t.leafs, p[0]);
                lemma_find_leaf_idx_push(t.leafs, leaf, p[0]);
                assert(!leaf_matches(leaf, p[0]));
                assert(get_spec(t2, p) == get_spec(t, p));
            }
        }
    } else {
        let seg = path[0];
        let rest = path.drop_first();
        assert(rest.last() == path.last());
        let i = find_node_idx(t.nodes, seg);
        lemma_find_node_idx(t.nodes, seg);
        if 0 <= i < t.nodes.len() {
            let child = t.nodes[i];
            let child2 = push_spec(child, rest, leaf);
            assert(get_spec(child, rest) is None);
            lemma_push_spec_get(child, rest, leaf, rest);
            lemma_push_spec_fqn(child, rest, leaf);
            lemma_find_node_idx_update(t.nodes, i, child2, seg);
            assert(t2.nodes == t.nodes.update(i, child2));
            assert(get_spec(t2, path) == get_spec(child2, rest));
            assert(get_spec(t2, path) == Some(leaf));
            if p != path && p.len() > 1 {
                let j = find_node_idx(t.nodes, p[0]);
                lemma_find_node_idx(t.nodes, p[0]);
                lemma_find_node_idx_update(t.nodes, i, child2, p[0]);
                assert(find_node_idx(t2.nodes, p[0]) == j);
                if 0 <= j < t.nodes.len() {
                    if j == i {
                        assert(p[0] == seg) by {
                            assert(node_matches(t.nodes[i], seg));
                            assert(node_matches(t.nodes[j], p[0]));
                        }
                        assert(p.drop_first() != rest) by {
                            if p.drop_first() == rest {
                                assert(p.len() == path.len());
                                assert forall|k: int| 0 <= k < p.len() implies p[k] == path[k] by {
                                    if k > 0 {
                                        assert(p[k] == p.drop_first()[k - 1]);
                                        assert(path[k] == rest[k - 1]);
                                    }
                                }
                                assert(p =~= path);
                            }
                        }
                        lemma_push_spec_get(child, rest, leaf, p.drop_first());
                        assert(get_spec(t2, p) == get_spec(child2, p.drop_first()));
                        assert(get_spec(t2, p) == get_spec(t, p));
                    } else {
                        assert(t2.nodes[j] == t.nodes[j]);
                        assert(get_spec(t2, p) == get_spec(t, p));
                    }
                }
            }
        } else {
            assert(i == -1);
            let fresh = SpecTreeNodeV {
                fqn: t.fqn.push(seg),
                nodes: Seq::<SpecTreeNodeV>::empty(),
                leafs: Seq::<SpecTreeLeafV>::empty(),
            };
            let chain = push_spec(fresh, rest, leaf);
            lemma_get_spec_empty(fresh, rest);
            lemma_push_spec_get(fresh, rest, leaf, rest);
            lemma_push_spec_fqn(fresh, rest, leaf);
            assert(node_matches(chain, seg)) by {
                assert(chain.fqn == t.fqn.push(seg));
                assert(chain.fqn.last() == seg);
            }
            lemma_find_node_idx_push(t.nodes, chain, seg);
            assert(find_node_idx(t2.nodes, seg) == t.nodes.len());
            assert(t2.nodes == t.nodes.push(chain));
            assert(t2.nodes[t.nodes.len() as int] == chain);
            assert(get_spec(t2, path) == get_spec(chain, rest));
            assert(get_spec(t2, path) == Some(leaf));
            if p != path && p.len() > 1 {
                let j = find_node_idx(t.nodes, p[0]);
                lemma_find_node_idx(t.nodes, p[0]);
                lemma_find_node_idx_push(t.nodes, chain, p[0]);
                if p[0] == seg {
                    assert(j == -1);
                    assert(get_spec(t, p) is None);
                    assert(find_node_idx(t2.nodes, p[0]) == t.nodes.len());
                    assert(p.drop_first() != rest) by {
                        if p.drop_first() == rest {
                            assert(p.len() == path.len());
                            assert forall|k: int| 0 <= k < p.len() implies p[k] == path[k] by {
                                if k > 0 {
                                    assert(p[k] == p.drop_first()[k - 1]);
                                    assert(path[k] == rest[k - 1]);
                                }
                            }
                            assert(p =~= path);
                        }
                    }
                    lemma_push_spec_get(fresh, rest, leaf, p.drop_first());
                    lemma_get_spec_empty(fresh, p.drop_first());
                    assert(get_spec(t2, p) == get_spec(chain, p.drop_first()));
                    assert(get_spec(t2, p) is None);
                } else {
                    assert(!node_matches(chain, p[0]));
                    assert(find_node_idx(t2.nodes, p[0]) == j);
                    if 0 <= j < t.nodes.len() {
                        assert(t2.nodes[j] == t.nodes[j]);
                        assert(get_spec(t2, p) == get_spec(t, p));
                    }
                }
            }
        }
    }
}

/// Law: pushing twice at the same fully-qualified path always yields a
/// duplicate on the second push, regardless of either leaf's kind. After a
/// first push at `path` succeeds, the path resolves to a leaf, which is
/// exactly the condition under which `push` reports `DuplicateSpecError`.
pub proof fn lemma_push_duplicate(t: SpecTreeNodeV, path: Seq<Seq<char>>, first: SpecTreeLeafV)
    requires
        path.len() >= 1,
        leaf_fqn(first).len() > 0,
        leaf_fqn(first).last() == path.last(),
        get_spec(t, path) is None,
    ensures
        get_spec(push_spec(t, path, first), path) is Some,
{
    lemma_push_spec_get(t, path, first, path);
}

/// Law: storing a leaf at a path never makes any other path resolve to a
/// leaf; in particular a strict prefix of the stored path (an intermediate
/// module) still resolves to no leaf afterwards.
pub proof fn lemma_get_module(
    t: SpecTreeNodeV,
    path: Seq<Seq<char>>,
    leaf: SpecTreeLeafV,
    prefix: Seq<Seq<char>>,
)
    requires
        path.len() >= 1,
        leaf_fqn(leaf).len() > 0,
        leaf_fqn(leaf).last() == path.last(),
        get_spec(t, path) is None,
        get_spec(t, prefix) is None,
        prefix != path,
    ensures
        get_spec(push_spec(t, path, leaf), prefix) is None,
{
    lemma_push_spec_get(t, path, leaf, prefix);
}

// ---------------------------------------------------------------------------
// Well-formedness: the trie keeps its entries keyed
// ---------------------------------------------------------------------------

/// Whether a leaf carries a key (a non-empty qualified name).
pub open spec fn leaf_keyed(l: SpecTreeLeafV) -> bool {
    leaf_fqn(l).len() > 0
}

/// Well-formedness of the children of one node, recursively.
pub open spec fn wf_nodes(ns: Seq<SpecTreeNodeV>) -> bool
    decreases ns,
{
    if ns.len() == 0 {
        true
    } else {
        wf_nodes(ns.drop_last()) && wf_node(ns.last())
    }
}

/// Well-formedness of the trie: every leaf and child carries a key, keys
/// are unique among the leaves and among the children of each node, and
/// each child's qualified name extends its parent's by the child's own key.
/// `push` is the only way entries enter a tree, and it preserves this.
pub open spec fn wf_node(t: SpecTreeNodeV) -> bool
    decreases t,
{
    &&& forall|k: int| 0 <= k < t.leafs.len() ==> leaf_keyed(#[trigger] t.leafs[k])
    &&& forall|a: int, b: int|
        0 <= a < b < t.leafs.len() ==> leaf_fqn(#[trigger] t.leafs[a]).last() != leaf_fqn(
            #[trigger] t.leafs[b],
        ).last()
    &&& forall|k: int|
        0 <= k < t.nodes.len() ==> (#[trigger] t.nodes[k]).fqn == t.fqn.push(
            t.nodes[k].fqn.last(),
        )
    &&& forall|a: int, b: int|
        0 <= a < b < t.nodes.len() ==> (#[trigger] t.nodes[a]).fqn.last() != (
        #[trigger] t.nodes[b]).fqn.last()
    &&& wf_nodes(t.nodes)
}

pub proof fn lemma_wf_nodes_index(ns: Seq<SpecTreeNodeV>, k: int)
    requires
        wf_nodes(ns),
        0 <= k < ns.len(),
    ensures
        wf_node(ns[k]),
    decreases ns.len(),
{
    if k < ns.len() - 1 {
        lemma_wf_nodes_index(ns.drop_last(), k);
    }
}

pub proof fn lemma_wf_nodes_push(ns: Seq<SpecTreeNodeV>, x: SpecTreeNodeV)
    requires
        wf_nodes(ns),
        wf_node(x),
    ensures
        wf_nodes(ns.push(x)),
{
    assert(ns.push(x).drop_last() =~= ns);
    assert(ns.push(x).last() == x);
}

pub proof fn lemma_wf_nodes_update(ns: Seq<SpecTreeNodeV>, j: int, x: SpecTreeNodeV)
    requires
        wf_nodes(ns),
        wf_node(x),
        0 <= j < ns.len(),
    ensures
        wf_nodes(ns.update(j, x)),
    decreases ns.len(),
{
    let us = ns.update(j, x);
    if j == ns.len() - 1 {
        assert(us.drop_last() =~= ns.drop_last());
        assert(us.last() == x);
    } else {
        assert(us.drop_last() =~= ns.drop_last().update(j, x));
        lemma_wf_nodes_update(ns.drop_last(), j, x);
        assert(us.last() == ns.last());
    }
}

/// Pushing a leaf with a key along its own path preserves well-formedness.
pub proof fn lemma_push_spec_wf(t: SpecTreeNodeV, path: Seq<Seq<char>>, leaf: SpecTreeLeafV)
    requires
        wf_node(t),
        path.len() >= 1,
        leaf_fqn(leaf).len() > 0,
        leaf_fqn(leaf).last() == path.last(),
        get_spec(t, path) is None,
    ensures
        wf_node(push_spec(t, path, leaf)),
    decreases path.len(),
{
    let t2 = push_spec(t, path, leaf);
    if path.len() == 1 {
        lemma_find_leaf_idx(t.leafs, path[0]);
        assert(find_leaf_idx(t.leafs, path[0]) == -1);
        assert forall|a: int, b: int|
            0 <= a < b < t2.leafs.len() implies leaf_fqn(#[trigger] t2.leafs[a]).last()
            != leaf_fqn(#[trigger] t2.leafs[b]).last() by {
            if b == t.leafs.len() {
                assert(!leaf_matches(t.leafs[a], path[0]));
            }
        }
    } else {
        let seg = path[0];
        let rest = path.drop_first();
        assert(rest.last() == path.last());
        let i = find_node_idx(t.nodes, seg);
        lemma_find_node_idx(t.nodes, seg);
        if 0 <= i < t.nodes.len() {
            let child = t.nodes[i];
            let child2 = push_spec(child, rest, leaf);
            lemma_wf_nodes_index(t.nodes, i);
            lemma_push_spec_wf(child, rest, leaf);
            lemma_push_spec_fqn(child, rest, leaf);
            lemma_wf_nodes_update(t.nodes, i, child2);
            assert forall|k: int|
                0 <= k < t2.nodes.len() implies (#[trigger] t2.nodes[k]).fqn == t2.fqn.push(
                t2.nodes[k].fqn.last(),
            ) by {
                if k != i {
                    assert(t2.nodes[k] == t.nodes[k]);
                }
            }
        } else {
            assert(i == -1);
            let fresh = SpecTreeNodeV {
                fqn: t.fqn.push(seg),
                nodes: Seq::<SpecTreeNodeV>::empty(),
                leafs: Seq::<SpecTreeLeafV>::empty(),
            };
            let chain = push_spec(fresh, rest, leaf);
            assert(wf_node(fresh));
            lemma_get_spec_empty(fresh, rest);
            lemma_push_spec_wf(fresh, rest, leaf);
            lemma_push_spec_fqn(fresh, rest, leaf);
            lemma_wf_nodes_push(t.nodes, chain);
            assert forall|a: int, b: int|
                0 <= a < b < t2.nodes.len() implies (#[trigger] t2.nodes[a]).fqn.last() != (
            #[trigger] t2.nodes[b]).fqn.last() by {
                if b == t.nodes.len() {
                    assert(!node_matches(t.nodes[a], seg));
                    assert(t.nodes[a].fqn == t.fqn.push(t.nodes[a].fqn.last()));
                }
            }
            assert forall|k: int|
                0 <= k < t2.nodes.len() implies (#[trigger] t2.nodes[k]).fqn == t2.fqn.push(
                t2.nodes[k].fqn.last(),
            ) by {
                if k < t.nodes.len() {
                    assert(t2.nodes[k] == t.nodes[k]);
                }
            }
        }
    }
}

// ---------------------------------------------------------------------------
// Leaf operations
// ---------------------------------------------------------------------------

impl StructSpec {
    /// The names of the required fields configured for this record.
    pub fn fields_map(&self) -> (r: &Vec<String>)
        ensures
            r.deep_view() == self@.fields,
    {
        &self.fields
    }
}

impl SpecTreeLeaf {
    /// A record marker with the given qualified name and required fields.
    pub fn new_struct_spec(fqn: Vec<String>, fields: Vec<String>) -> (r: Self)
        ensures
            r@ == SpecTreeLeafV::Struct(
                StructSpecV { fqn: fqn.deep_view(), fields: fields.deep_view() },
            ),
    {
        SpecTreeLeaf::Struct(StructSpec { fqn, fields })
    }

    /// A union marker with the given qualified name.
    pub fn new_enum_spec(fqn: Vec<String>) -> (r: Self)
        ensures
            r@ == SpecTreeLeafV::Enum(EnumSpecV { fqn: fqn.deep_view() }),
    {
        SpecTreeLeaf::Enum(EnumSpec { fqn })
    }

    /// The fully-qualified name this leaf was configured under.
    pub fn fqn_ref(&self) -> (r: &Vec<String>)
        ensures
            r.deep_view() == leaf_fqn(self@),
    {
        match self {
            SpecTreeLeaf::Struct(s) => &s.fqn,
            SpecTreeLeaf::Enum(e) => &e.fqn,
        }
    }
}

// ---------------------------------------------------------------------------
// Tree operations
// ---------------------------------------------------------------------------

impl SpecTreeNode {
    /// A fresh module node with an empty qualified name and no contents.
    pub fn new() -> (r: Self)
        ensures
            r@ == (SpecTreeNodeV {
                fqn: Seq::<Seq<char>>::empty(),
                nodes: Seq::<SpecTreeNodeV>::empty(),
                leafs: Seq::<SpecTreeLeafV>::empty(),
            }),
    {
        let r = SpecTreeNode { fqn: Vec::new(), nodes: Vec::new(), leafs: Vec::new() };
        proof {
            assert(r.fqn.deep_view() =~= Seq::<Seq<char>>::empty());
            assert(r@.leafs =~= Seq::<SpecTreeLeafV>::empty());
        }
        r
    }

    /// The index of the child module node keyed by `ident`; the child is
    /// created (appended, with this node's name extended by `ident`) when no
    /// such child exists yet.
    #[verifier::loop_isolation(false)]
    pub fn child(&mut self, ident: &String) -> (j: usize)
        ensures
            final(self)@.fqn == old(self)@.fqn,
            final(self)@.leafs == old(self)@.leafs,
            j < final(self)@.nodes.len(),
            final(self)@.nodes.len() == final(self).nodes@.len(),
            ({
                let i = find_node_idx(old(self)@.nodes, ident@);
                if i >= 0 {
                    final(self)@ == old(self)@ && i == j
                } else {
                    &&& j == old(self)@.nodes.len()
                    &&& final(self)@.nodes == old(self)@.nodes.push(
                        SpecTreeNodeV {
                            fqn: old(self)@.fqn.push(ident@),
                            nodes: Seq::<SpecTreeNodeV>::empty(),
                            leafs: Seq::<SpecTreeLeafV>::empty(),
                        },
                    )
                }
            }),
    {
        proof {
            lemma_nodes_view_len(self.nodes@);
            lemma_find_node_idx(self@.nodes, ident@);
        }
        let ghost nsv = self@.nodes;
        let mut k: usize = 0;
        while k < self.nodes.len()
            invariant
                k <= self.nodes.len(),
                forall|t: int| 0 <= t < k ==> !node_matches(nsv[t], ident@),
            decreases self.nodes.len() - k,
        {
            proof {
                lemma_nodes_view_index(self.nodes@, k as int);
            }
            let f = &self.nodes[k].fqn;
            if f.len() > 0 && f[f.len() - 1] == *ident {
                proof {
                    assert(f.deep_view().last() == ident@);
                    assert(node_matches(nsv[k as int], ident@));
                    assert(find_node_idx(nsv, ident@) == k as int);
                }
                return k;
            }
            proof {
                assert(!node_matches(nsv[k as int], ident@));
            }
            k = k + 1;
        }
        proof {
            assert(find_node_idx(nsv, ident@) < 0);
        }
        let mut fqn = self.fqn.clone();
        proof {
            assert forall|t: int| 0 <= t < self.fqn@.len() implies fqn@[t]@ == self.fqn@[t]@ by {}
            assert(fqn.deep_view() =~= self.fqn.deep_view());
        }
        fqn.push(ident.clone());
        let child = SpecTreeNode { fqn, nodes: Vec::new(), leafs: Vec::new() };
        proof {
            assert(child.fqn.deep_view() =~= old(self)@.fqn.push(ident@));
            assert(child@.leafs =~= Seq::<SpecTreeLeafV>::empty());
            assert(child@ == (SpecTreeNodeV {
                fqn: old(self)@.fqn.push(ident@),
                nodes: Seq::<SpecTreeNodeV>::empty(),
                leafs: Seq::<SpecTreeLeafV>::empty(),
            }));
        }
        let j = self.nodes.len();
        self.nodes.push(child);
        proof {
            lemma_nodes_view_push(old(self).nodes@, child);
            assert(self@.leafs =~= old(self)@.leafs);
            lemma_nodes_view_len(self.nodes@);
        }
        j
    }
}

/// Walks the trie from `node` along `path[i..]`, returning the leaf stored
/// at that path, if any.
#[verifier::loop_isolation(false)]
fn get_leaf_rec<'a>(node: &'a SpecTreeNode, path: &Vec<String>, i: usize) -> (r: Option<
    &'a SpecTreeLeaf,
>)
    requires
        i <= path.len(),
    ensures
        match r {
            Some(l) => get_spec(node@, path.deep_view().skip(i as int)) == Some(l@),
            None => get_spec(node@, path.deep_view().skip(i as int)) is None,
        },
    decreases path.len() - i,
{
    let ghost suffix = path.deep_view().skip(i as int);
    if i >= path.len() {
        return None;
    }
    proof {
        assert(suffix[0] == path.deep_view()[i as int]);
    }
    let seg = &path[i];
    if i == path.len() - 1 {
        proof {
            lemma_find_leaf_idx(node@.leafs, seg@);
        }
        let ghost lsv = node@.leafs;
        let mut k: usize = 0;
        while k < node.leafs.len()
            invariant
                k <= node.leafs.len(),
                node.leafs@.len() == lsv.len(),
                forall|t: int| 0 <= t < k ==> !leaf_matches(lsv[t], seg@),
            decreases node.leafs.len() - k,
        {
            proof {
                assert(lsv[k as int] == node.leafs@[k as int]@);
            }
            let f = node.leafs[k].fqn_ref();
            if f.len() > 0 && f[f.len() - 1] == *seg {
                proof {
                    assert(f.deep_view().last() == seg@);
                    assert(leaf_matches(lsv[k as int], seg@));
                    assert(find_leaf_idx(lsv, seg@) == k as int);
                    assert(get_spec(node@, suffix) == Some(lsv[k as int]));
                }
                return Some(&node.leafs[k]);
            }
            proof {
                assert(!leaf_matches(lsv[k as int], seg@));
            }
            k = k + 1;
        }
        proof {
            assert(find_leaf_idx(lsv, seg@) < 0);
        }
        None
    } else {
        proof {
            lemma_find_node_idx(node@.nodes, seg@);
            lemma_nodes_view_len(node.nodes@);
        }
        let ghost nsv = node@.nodes;
        let mut k: usize = 0;
        while k < node.nodes.len()
            invariant
                k <= node.nodes.len(),
                forall|t: int| 0 <= t < k ==> !node_matches(nsv[t], seg@),
            decreases node.nodes.len() - k,
        {
            proof {
                lemma_nodes_view_index(node.nodes@, k as int);
            }
            let f = &node.nodes[k].fqn;
            if f.len() > 0 && f[f.len() - 1] == *seg {
                proof {
                    assert(f.deep_view().last() == seg@);
                    assert(node_matches(nsv[k as int], seg@));
                    assert(find_node_idx(nsv, seg@) == k as int);
                    assert(suffix.drop_first() =~= path.deep_view().skip(i + 1));
                }
                return get_leaf_rec(&node.nodes[k], path, i + 1);
            }
            proof {
                assert(!node_matches(nsv[k as int], seg@));
            }
            k = k + 1;
        }
        proof {
            assert(find_node_idx(nsv, seg@) < 0);
        }
        None
    }
}

/// Stores `leaf` under `path[i..]` below `node`, creating intermediate
/// module nodes on demand.
fn push_rec(node: &mut SpecTreeNode, path: &Vec<String>, i: usize, leaf: SpecTreeLeaf)
    requires
        i < path.len(),
    ensures
        final(node)@ == push_spec(old(node)@, path.deep_view().skip(i as int), leaf@),
    decreases path.len() - i,
{
    let ghost suffix = path.deep_view().skip(i as int);
    proof {
        assert(suffix[0] == path.deep_view()[i as int]);
    }
    if i == path.len() - 1 {
        node.leafs.push(leaf);
        proof {
            assert(node@.leafs =~= old(node)@.leafs.push(leaf@));
            assert(node@ == push_spec(old(node)@, suffix, leaf@));
        }
    } else {
        let ghost ov = old(node)@;
        let ghost seg = path.deep_view()[i as int];
        let ghost i0 = find_node_idx(ov.nodes, seg);
        proof {
            lemma_find_node_idx(ov.nodes, seg);
            lemma_nodes_view_len(old(node).nodes@);
        }
        let j = node.child(&path[i]);
        proof {
            lemma_nodes_view_len(node.nodes@);
        }
        let ghost nodes1 = node.nodes@;
        let ghost fresh = SpecTreeNodeV {
            fqn: ov.fqn.push(seg),
            nodes: Seq::<SpecTreeNodeV>::empty(),
            leafs: Seq::<SpecTreeLeafV>::empty(),
        };
        let mut c = node.nodes.remove(j);
        let ghost cv0 = c@;
        push_rec(&mut c, path, i + 1, leaf);
        proof {
            assert(suffix.drop_first() =~= path.deep_view().skip(i + 1));
        }
        node.nodes.insert(j, c);
        proof {
            let cv1 = push_spec(cv0, suffix.drop_first(), leaf@);
            assert(c@ == cv1);
            assert(node.nodes@ =~= nodes1.update(j as int, c));
            lemma_nodes_view_update(nodes1, j as int, c);
            lemma_nodes_view_index(nodes1, j as int);
            assert(cv0 == nodes_view(nodes1)[j as int]);
            if i0 >= 0 {
                // the child already existed: the update case of push_spec
                assert(nodes_view(nodes1) == ov.nodes);
                assert(node@.nodes == ov.nodes.update(j as int, cv1));
                assert(node@ == push_spec(ov, suffix, leaf@));
            } else {
                // the child was created: the append case of push_spec
                assert(nodes_view(nodes1) == ov.nodes.push(fresh));
                assert(cv0 == fresh);
                assert(ov.nodes.push(fresh).update(j as int, cv1) =~= ov.nodes.push(cv1));
                assert(node@.nodes == ov.nodes.push(cv1));
                assert(node@ == push_spec(ov, suffix, leaf@));
            }
        }
    }
}

impl SpecTreeNode {
    /// Stores `leaf` under its own fully-qualified name below this node,
    /// creating intermediate module nodes on demand; a leaf already at that
    /// exact path is a duplicate, reported with the colliding path.
    pub fn push(&mut self, leaf: SpecTreeLeaf) -> (r: Result<(), DuplicateSpecError>)
        requires
            leaf_fqn(leaf@).len() >= 1,
        ensures
            match r {
                Ok(_) => get_spec(old(self)@, leaf_fqn(leaf@)) is None && final(self)@
                    == push_spec(old(self)@, leaf_fqn(leaf@), leaf@),
                Err(e) => get_spec(old(self)@, leaf_fqn(leaf@)) is Some && final(self)@ == old(
                    self,
                )@ && e.fqn.deep_view() == leaf_fqn(leaf@),
            },
    {
        let fqn_src = leaf.fqn_ref();
        let fqn_vec = fqn_src.clone();
        proof {
            assert forall|t: int|
                0 <= t < fqn_vec@.len() implies fqn_vec@[t]@ == fqn_src@[t]@ by {}
            assert(fqn_vec.deep_view() =~= leaf_fqn(leaf@));
        }
        if self.get_leaf(&fqn_vec).is_some() {
            return Err(DuplicateSpecError { fqn: fqn_vec });
        }
        proof {
            assert(fqn_vec.deep_view().skip(0) =~= leaf_fqn(leaf@));
        }
        push_rec(self, &fqn_vec, 0, leaf);
        Ok(())
    }

    /// The leaf stored at exactly `path` below this node, if any; a path
    /// naming only an intermediate module yields `None`.
    pub fn get_leaf<'a>(&'a self, path: &Vec<String>) -> (r: Option<&'a SpecTreeLeaf>)
        ensures
            match r {
                Some(l) => get_spec(self@, path.deep_view()) == Some(l@),
                None => get_spec(self@, path.deep_view()) is None,
            },
    {
        proof {
            assert(path.deep_view().skip(0) =~= path.deep_view());
        }
        get_leaf_rec(self, path, 0)
    }
}

impl SpecTree {
    /// A fresh, empty specification tree: no path resolves to a leaf.
    pub fn new() -> (r: Self)
        ensures
            r@ == (SpecTreeNodeV {
                fqn: Seq::<Seq<char>>::empty(),
                nodes: Seq::<SpecTreeNodeV>::empty(),
                leafs: Seq::<SpecTreeLeafV>::empty(),
            }),
            forall|p: Seq<Seq<char>>| get_spec(r@, p) is None,
            wf_node(r@),
    {
        let r = SpecTree { inner: SpecTreeNode::new() };
        proof {
            assert forall|p: Seq<Seq<char>>| get_spec(r@, p) is None by {
                if p.len() == 1 {
                    assert(find_leaf_idx(r@.leafs, p[0]) == -1);
                } else if p.len() > 1 {
                    assert(find_node_idx(r@.nodes, p[0]) == -1);
                }
            }
        }
        r
    }

    /// Stores `leaf` under its own fully-qualified name, creating module
    /// nodes along the path on demand. Reports the colliding path and leaves
    /// the tree unchanged when a leaf already occupies that exact path,
    /// whatever the two leaves' kinds.
    pub fn push(&mut self, leaf: SpecTreeLeaf) -> (r: Result<(), DuplicateSpecError>)
        requires
            leaf_fqn(leaf@).len() >= 1,
        ensures
            match r {
                Ok(_) => get_spec(old(self)@, leaf_fqn(leaf@)) is None && final(self)@
                    == push_spec(old(self)@, leaf_fqn(leaf@), leaf@),
                Err(e) => get_spec(old(self)@, leaf_fqn(leaf@)) is Some && final(self)@ == old(
                    self,
                )@ && e.fqn.deep_view() == leaf_fqn(leaf@),
            },
            wf_node(old(self)@) ==> wf_node(final(self)@),
    {
        let fqn_src = leaf.fqn_ref();
        let fqn_vec = fqn_src.clone();
        proof {
            assert forall|t: int|
                0 <= t < fqn_vec@.len() implies fqn_vec@[t]@ == fqn_src@[t]@ by {}
            assert(fqn_vec.deep_view() =~= leaf_fqn(leaf@));
        }
        if self.get_leaf(&fqn_vec).is_some() {
            return Err(DuplicateSpecError { fqn: fqn_vec });
        }
        proof {
            assert(fqn_vec.deep_view().skip(0) =~= leaf_fqn(leaf@));
        }
        let ghost ov = self@;
        push_rec(&mut self.inner, &fqn_vec, 0, leaf);
        proof {
            if wf_node(ov) {
                lemma_push_spec_wf(ov, leaf_fqn(leaf@), leaf@);
            }
        }
        Ok(())
    }

    /// The leaf stored at exactly `path`, if any; a path that names only an
    /// intermediate module, or no node at all, yields `None`.
    pub fn get_leaf<'a>(&'a self, path: &Vec<String>) -> (r: Option<&'a SpecTreeLeaf>)
        ensures
            match r {
                Some(l) => get_spec(self@, path.deep_view()) == Some(l@),
                None => get_spec(self@, path.deep_view()) is None,
            },
    {
        proof {
            assert(path.deep_view().skip(0) =~= path.deep_view());
        }
        get_leaf_rec(&self.inner, path, 0)
    }
}

} // verus!
