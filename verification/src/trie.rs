//! The proxy path trie: a tree of path segments recording every distinct
//! segment sequence the forwarder has seen.
//!
//! Each node owns its children; the trie grows only by insertion and is
//! never pruned.  Insertion walks from the root, descending into the
//! child matching each segment and creating it where absent, so a held
//! path's prefixes are all held.  The diagnostic dump renders the tree
//! with one ` -> ` connector per depth level.

use vstd::prelude::*;
use vstd::string::StringExecFns;

verus! {

/// One trie node: a path segment and the segments seen after it.
#[derive(Debug)]
pub struct NodePath {
    pub value: String,
    pub children: Vec<NodePath>,
}

/// The shared trie: the top-level segments.
#[derive(Debug)]
pub struct ProxyState {
    pub routes: Vec<NodePath>,
}

/// The forest holds a path: each segment in turn names a child one level
/// deeper.  The empty path is always held.
pub open spec fn spec_forest_has(nodes: Seq<NodePath>, path: Seq<Seq<char>>) -> bool
    decreases nodes,
{
    path.len() == 0 || exists|i: int|
        0 <= i < nodes.len() && (#[trigger] nodes[i]).value@ == path[0] && spec_forest_has(
            nodes[i].children@,
            path.drop_first(),
        )
}

/// `p` is a prefix of `q`, segment for segment.
pub open spec fn spec_is_prefix(p: Seq<Seq<char>>, q: Seq<Seq<char>>) -> bool {
    p.len() <= q.len() && forall|k: int| 0 <= k < p.len() ==> p[k] == q[k]
}

/// The new forest extends the old one structurally: every node present
/// before keeps its position and its value, its children are extended the
/// same way, and at each level at most one node is appended at the end —
/// nothing is removed, renamed or reordered.
pub open spec fn spec_forest_extended(old_nodes: Seq<NodePath>, new_nodes: Seq<NodePath>) -> bool
    decreases old_nodes,
{
    &&& old_nodes.len() <= new_nodes.len() <= old_nodes.len() + 1
    &&& forall|q: int|
        0 <= q < old_nodes.len() ==> ((#[trigger] new_nodes[q]).value@ == old_nodes[q].value@
            && spec_forest_extended(old_nodes[q].children@, new_nodes[q].children@))
}

/// A well-formed forest: sibling values are pairwise distinct at every
/// level, so each segment names at most one child.
pub open spec fn spec_forest_wf(nodes: Seq<NodePath>) -> bool
    decreases nodes,
{
    &&& forall|a: int, b: int|
        0 <= a < b < nodes.len() ==> (#[trigger] nodes[a]).value@ != (#[trigger] nodes[b]).value@
    &&& forall|q: int| 0 <= q < nodes.len() ==> spec_forest_wf((#[trigger] nodes[q]).children@)
}

/// Two forests with the same shape: equal length, equal values position
/// by position, and recursively the same children — structurally
/// identical trees.
pub open spec fn spec_forest_same(a: Seq<NodePath>, b: Seq<NodePath>) -> bool
    decreases a,
{
    &&& a.len() == b.len()
    &&& forall|q: int|
        0 <= q < a.len() ==> ((#[trigger] b[q]).value@ == a[q].value@ && spec_forest_same(
            a[q].children@,
            b[q].children@,
        ))
}

/// A forest is the same as itself.
proof fn lemma_forest_same_refl(nodes: Seq<NodePath>)
    ensures
        spec_forest_same(nodes, nodes),
    decreases nodes,
{
    assert forall|q: int| 0 <= q < nodes.len() implies ((#[trigger] nodes[q]).value@ == nodes[
    q].value@ && spec_forest_same(nodes[q].children@, nodes[q].children@)) by {
        lemma_forest_same_refl(nodes[q].children@);
    }
}

/// A forest extends itself.
proof fn lemma_forest_extended_refl(nodes: Seq<NodePath>)
    ensures
        spec_forest_extended(nodes, nodes),
    decreases nodes,
{
    assert forall|q: int| 0 <= q < nodes.len() implies ((#[trigger] nodes[q]).value@ == nodes[
    q].value@ && spec_forest_extended(nodes[q].children@, nodes[q].children@)) by {
        lemma_forest_extended_refl(nodes[q].children@);
    }
}

/// Builds the linear chain holding exactly the suffixes of
/// `path[i..]`.
fn chain_from(path: &Vec<String>, i: usize) -> (r: NodePath)
    requires
        i < path@.len(),
    ensures
        r.value@ == path.deep_view()[i as int],
        forall|p: Seq<Seq<char>>|
            #[trigger] spec_forest_has(seq![r], p) <==> spec_is_prefix(
                p,
                path.deep_view().skip(i as int),
            ),
        spec_forest_wf(seq![r]),
    decreases path@.len() - i,
{
    let len = path.len();
    let children: Vec<NodePath> = if i + 1 < len {
        let child = chain_from(path, i + 1);
        let mut v: Vec<NodePath> = Vec::new();
        v.push(child);
        v
    } else {
        Vec::new()
    };
    let node = NodePath { value: path[i].clone(), children };
    proof {
        if i + 1 < len {
            assert(node.children@.len() == 1);
            assert(seq![node][0] == node);
            assert(spec_forest_wf(node.children@));
        } else {
            assert(node.children@ =~= Seq::<NodePath>::empty());
            assert(spec_forest_wf(node.children@));
        }
        assert(spec_forest_wf(seq![node]));
    }
    proof {
        let pv = path.deep_view();
        assert(pv.skip(i as int)[0] == pv[i as int]);
        assert(pv.skip(i as int).drop_first() =~= pv.skip(i + 1 as int));
        assert forall|p: Seq<Seq<char>>| #[trigger]
            spec_forest_has(seq![node], p) <==> spec_is_prefix(p, pv.skip(i as int)) by {
            if p.len() == 0 {
                assert(spec_forest_has(seq![node], p));
                assert(spec_is_prefix(p, pv.skip(i as int)));
            } else {
                assert(seq![node][0] == node);
                if i + 1 < len {
                    // Non-final segment: one child carries the rest.
                    if spec_forest_has(seq![node], p) {
                        assert(node.value@ == p[0]);
                        assert(spec_forest_has(node.children@, p.drop_first()));
                        assert(spec_is_prefix(p.drop_first(), pv.skip(i + 1 as int)));
                        assert forall|k: int| 0 <= k < p.len() implies p[k] == pv.skip(
                            i as int,
                        )[k] by {
                            if k > 0 {
                                assert(p.drop_first()[k - 1] == pv.skip(i + 1 as int)[k - 1]);
                            }
                        }
                        assert(spec_is_prefix(p, pv.skip(i as int)));
                    }
                    if spec_is_prefix(p, pv.skip(i as int)) {
                        assert(p[0] == pv.skip(i as int)[0]);
                        assert forall|k: int|
                            0 <= k < p.drop_first().len() implies p.drop_first()[k] == pv.skip(
                            i + 1 as int,
                        )[k] by {
                            assert(p[k + 1] == pv.skip(i as int)[k + 1]);
                        }
                        assert(spec_is_prefix(p.drop_first(), pv.skip(i + 1 as int)));
                        assert(spec_forest_has(node.children@, p.drop_first()));
                        assert(spec_forest_has(seq![node], p));
                    }
                } else {
                    // Final segment: the chain holds nothing deeper.
                    assert(pv.skip(i as int).len() == 1);
                    assert(node.children@ =~= Seq::<NodePath>::empty());
                    if spec_forest_has(seq![node], p) {
                        assert(node.value@ == p[0]);
                        assert(spec_forest_has(node.children@, p.drop_first()));
                        assert(p.drop_first().len() == 0);
                        assert(p.len() == 1);
                        assert(spec_is_prefix(p, pv.skip(i as int)));
                    }
                    if spec_is_prefix(p, pv.skip(i as int)) {
                        assert(p.len() == 1);
                        assert(p[0] == pv.skip(i as int)[0]);
                        assert(p.drop_first().len() == 0);
                        assert(spec_forest_has(node.children@, p.drop_first()));
                        assert(spec_forest_has(seq![node], p));
                    }
                }
            }
        }
    }
    node
}

/// Inserts `path[i..]` into the forest: afterwards the forest holds
/// exactly what it held before plus the prefixes of the inserted suffix.
fn insert_from(nodes: &mut Vec<NodePath>, path: &Vec<String>, i: usize)
    requires
        i <= path@.len(),
    ensures
        forall|p: Seq<Seq<char>>|
            #[trigger] spec_forest_has(final(nodes)@, p) <==> (spec_forest_has(old(nodes)@, p)
                || spec_is_prefix(p, path.deep_view().skip(i as int))),
        spec_forest_extended(old(nodes)@, final(nodes)@),
        spec_forest_wf(old(nodes)@) ==> spec_forest_wf(final(nodes)@),
        (spec_forest_wf(old(nodes)@) && spec_forest_has(old(nodes)@, path.deep_view().skip(i as int)))
            ==> spec_forest_same(old(nodes)@, final(nodes)@),
    decreases path@.len() - i,
{
    let ghost pv = path.deep_view();
    let len = path.len();
    if i == len {
        proof {
            assert(pv.skip(i as int).len() == 0);
            assert forall|p: Seq<Seq<char>>|
                spec_is_prefix(p, pv.skip(i as int)) implies p.len() == 0 by {}
            lemma_forest_extended_refl(nodes@);
            lemma_forest_same_refl(nodes@);
        }
        return ;
    }
    let n = nodes.len();
    let mut j: usize = 0;
    while j < n
        invariant
            i < path@.len(),
            path@.len() == len,
            pv == path.deep_view(),
            nodes@ == old(nodes)@,
            n == nodes@.len(),
            0 <= j <= n,
            forall|q: int| 0 <= q < j ==> (#[trigger] nodes@[q]).value@ != pv[i as int],
        decreases n - j,
    {
        if nodes[j].value == path[i] {
            let mut node = nodes.remove(j);
            let ghost node0 = node;
            insert_from(&mut node.children, path, i + 1);
            proof {
                assert(node.value@ == node0.value@);
            }
            nodes.insert(j, node);
            proof {
                let old_nodes = old(nodes)@;
                let new_nodes = nodes@;
                assert(new_nodes =~= old_nodes.update(j as int, node));
                assert forall|q: int| 0 <= q < old_nodes.len() implies ((
                #[trigger] new_nodes[q]).value@ == old_nodes[q].value@ && spec_forest_extended(
                    old_nodes[q].children@,
                    new_nodes[q].children@,
                )) by {
                    if q == j {
                        assert(new_nodes[q] == node);
                        assert(spec_forest_extended(node0.children@, node.children@));
                    } else {
                        assert(new_nodes[q] == old_nodes[q]);
                        lemma_forest_extended_refl(old_nodes[q].children@);
                    }
                }
                assert(spec_forest_extended(old_nodes, new_nodes));
                if spec_forest_wf(old_nodes) {
                    assert(spec_forest_wf(node0.children@));
                    assert(spec_forest_wf(node.children@));
                    assert forall|q: int| 0 <= q < new_nodes.len() implies spec_forest_wf(
                        (#[trigger] new_nodes[q]).children@,
                    ) by {
                        if q != j {
                            assert(new_nodes[q] == old_nodes[q]);
                        }
                    }
                    assert forall|a: int, b: int|
                        0 <= a < b < new_nodes.len() implies (
                    #[trigger] new_nodes[a]).value@ != (#[trigger] new_nodes[b]).value@ by {
                        assert(new_nodes[a].value@ == old_nodes[a].value@);
                        assert(new_nodes[b].value@ == old_nodes[b].value@);
                    }
                    assert(spec_forest_wf(new_nodes));
                }
                assert(old_nodes[j as int] == node0);
                assert(node.value@ == pv[i as int]);
                assert(pv.skip(i as int)[0] == pv[i as int]);
                assert(pv.skip(i as int).drop_first() =~= pv.skip(i + 1 as int));
                if spec_forest_wf(old_nodes) && spec_forest_has(old_nodes, pv.skip(i as int)) {
                    let w = choose|w: int|
                        0 <= w < old_nodes.len() && (#[trigger] old_nodes[w]).value@ == pv.skip(
                            i as int,
                        )[0] && spec_forest_has(old_nodes[w].children@, pv.skip(i as int).drop_first());
                    assert(old_nodes[w].value@ == pv[i as int]);
                    if w != j {
                        assert(old_nodes[w].value@ != old_nodes[j as int].value@);
                        assert(false);
                    }
                    assert(spec_forest_has(node0.children@, pv.skip(i + 1 as int)));
                    assert(spec_forest_same(node0.children@, node.children@));
                    assert forall|q: int| 0 <= q < old_nodes.len() implies ((
                    #[trigger] new_nodes[q]).value@ == old_nodes[q].value@ && spec_forest_same(
                        old_nodes[q].children@,
                        new_nodes[q].children@,
                    )) by {
                        if q == j {
                            assert(new_nodes[q] == node);
                        } else {
                            assert(new_nodes[q] == old_nodes[q]);
                            lemma_forest_same_refl(old_nodes[q].children@);
                        }
                    }
                    assert(spec_forest_same(old_nodes, new_nodes));
                }
                assert forall|p: Seq<Seq<char>>| #[trigger]
                    spec_forest_has(new_nodes, p) <==> (spec_forest_has(old_nodes, p)
                        || spec_is_prefix(p, pv.skip(i as int))) by {
                    if p.len() == 0 {
                    } else {
                        if spec_forest_has(new_nodes, p) {
                            let w = choose|w: int|
                                0 <= w < new_nodes.len() && (#[trigger] new_nodes[w]).value@ == p[0]
                                    && spec_forest_has(new_nodes[w].children@, p.drop_first());
                            if w != j {
                                assert(new_nodes[w] == old_nodes[w]);
                                assert(spec_forest_has(old_nodes, p));
                            } else {
                                if spec_forest_has(node0.children@, p.drop_first()) {
                                    assert(old_nodes[j as int].value@ == p[0]);
                                    assert(spec_forest_has(old_nodes, p));
                                } else {
                                    assert(spec_is_prefix(p.drop_first(), pv.skip(i + 1 as int)));
                                    assert forall|k: int| 0 <= k < p.len() implies p[k] == pv.skip(
                                        i as int,
                                    )[k] by {
                                        if k > 0 {
                                            assert(p.drop_first()[k - 1] == pv.skip(
                                                i + 1 as int,
                                            )[k - 1]);
                                        }
                                    }
                                    assert(spec_is_prefix(p, pv.skip(i as int)));
                                }
                            }
                        }
                        if spec_forest_has(old_nodes, p) {
                            let w = choose|w: int|
                                0 <= w < old_nodes.len() && (#[trigger] old_nodes[w]).value@ == p[0]
                                    && spec_forest_has(old_nodes[w].children@, p.drop_first());
                            if w != j {
                                assert(new_nodes[w] == old_nodes[w]);
                                assert(spec_forest_has(new_nodes, p));
                            } else {
                                assert(spec_forest_has(node.children@, p.drop_first()));
                                assert(new_nodes[j as int].value@ == p[0]);
                                assert(spec_forest_has(new_nodes, p));
                            }
                        }
                        if spec_is_prefix(p, pv.skip(i as int)) {
                            assert(p[0] == pv.skip(i as int)[0]);
                            assert forall|k: int|
                                0 <= k < p.drop_first().len() implies p.drop_first()[k] == pv.skip(
                                i + 1 as int,
                            )[k] by {
                                assert(p[k + 1] == pv.skip(i as int)[k + 1]);
                            }
                            assert(spec_is_prefix(p.drop_first(), pv.skip(i + 1 as int)));
                            assert(spec_forest_has(node.children@, p.drop_first()));
                            assert(new_nodes[j as int].value@ == p[0]);
                            assert(spec_forest_has(new_nodes, p));
                        }
                    }
                }
            }
            return ;
        }
        j = j + 1;
    }
    let node = chain_from(path, i);
    let ghost old_nodes = nodes@;
    nodes.push(node);
    proof {
        let new_nodes = nodes@;
        assert(new_nodes =~= old_nodes.push(node));
        assert forall|q: int| 0 <= q < old_nodes.len() implies ((#[trigger] new_nodes[q]).value@
            == old_nodes[q].value@ && spec_forest_extended(
            old_nodes[q].children@,
            new_nodes[q].children@,
        )) by {
            assert(new_nodes[q] == old_nodes[q]);
            lemma_forest_extended_refl(old_nodes[q].children@);
        }
        assert(spec_forest_extended(old_nodes, new_nodes));
        if spec_forest_wf(old_nodes) && spec_forest_has(old_nodes, pv.skip(i as int)) {
            let w = choose|w: int|
                0 <= w < old_nodes.len() && (#[trigger] old_nodes[w]).value@ == pv.skip(
                    i as int,
                )[0] && spec_forest_has(old_nodes[w].children@, pv.skip(i as int).drop_first());
            assert(old_nodes[w].value@ == pv[i as int]);
            assert(false);
        }
        if spec_forest_wf(old_nodes) {
            assert(spec_forest_wf(seq![node]));
            assert(seq![node][0] == node);
            assert(spec_forest_wf(node.children@));
            assert forall|q: int| 0 <= q < new_nodes.len() implies spec_forest_wf(
                (#[trigger] new_nodes[q]).children@,
            ) by {
                if q < old_nodes.len() {
                    assert(new_nodes[q] == old_nodes[q]);
                } else {
                    assert(new_nodes[q] == node);
                }
            }
            assert forall|a: int, b: int|
                0 <= a < b < new_nodes.len() implies (#[trigger] new_nodes[a]).value@ != (
            #[trigger] new_nodes[b]).value@ by {
                if b == old_nodes.len() {
                    assert(new_nodes[a] == old_nodes[a]);
                    assert(new_nodes[b] == node);
                    assert(node.value@ == pv[i as int]);
                    assert(old_nodes[a].value@ != pv[i as int]);
                } else {
                    assert(new_nodes[a] == old_nodes[a]);
                    assert(new_nodes[b] == old_nodes[b]);
                }
            }
            assert(spec_forest_wf(new_nodes));
        }
        assert forall|p: Seq<Seq<char>>| #[trigger]
            spec_forest_has(new_nodes, p) <==> (spec_forest_has(old_nodes, p) || spec_is_prefix(
                p,
                pv.skip(i as int),
            )) by {
            if p.len() > 0 {
                if spec_forest_has(new_nodes, p) {
                    let w = choose|w: int|
                        0 <= w < new_nodes.len() && (#[trigger] new_nodes[w]).value@ == p[0]
                            && spec_forest_has(new_nodes[w].children@, p.drop_first());
                    if w < old_nodes.len() {
                        assert(new_nodes[w] == old_nodes[w]);
                        assert(spec_forest_has(old_nodes, p));
                    } else {
                        assert(new_nodes[w] == node);
                        assert(seq![node][0] == node);
                        assert(spec_forest_has(seq![node], p));
                    }
                }
                if spec_forest_has(old_nodes, p) {
                    let w = choose|w: int|
                        0 <= w < old_nodes.len() && (#[trigger] old_nodes[w]).value@ == p[0]
                            && spec_forest_has(old_nodes[w].children@, p.drop_first());
                    assert(new_nodes[w] == old_nodes[w]);
                    assert(spec_forest_has(new_nodes, p));
                }
                if spec_is_prefix(p, pv.skip(i as int)) {
                    assert(spec_forest_has(seq![node], p));
                    assert(seq![node][0] == node);
                    assert(node.value@ == p[0] && spec_forest_has(
                        node.children@,
                        p.drop_first(),
                    ));
                    assert(new_nodes[old_nodes.len() as int] == node);
                    assert(spec_forest_has(new_nodes, p));
                }
            }
        }
    }
}

impl ProxyState {
    /// The empty trie, holding only the empty path.
    pub fn new() -> (r: ProxyState)
        ensures
            r.routes@ == Seq::<NodePath>::empty(),
            forall|p: Seq<Seq<char>>| #[trigger] spec_forest_has(r.routes@, p) <==> p.len() == 0,
            spec_forest_wf(r.routes@),
    {
        let state = ProxyState { routes: Vec::new() };
        proof {
            assert(state.routes@ =~= Seq::<NodePath>::empty());
        }
        state
    }

    /// Records one observed segment sequence: afterwards the trie holds
    /// what it held before plus the new path and its prefixes, and
    /// nothing else.  A pure structural append: every existing node keeps
    /// its position, value and child order, at most one node per level is
    /// added at the end of its sibling list, well-formedness (distinct
    /// sibling values) is preserved, and inserting an already-held path
    /// changes nothing at all.
    pub fn append_path(&mut self, path: &Vec<String>)
        ensures
            forall|p: Seq<Seq<char>>|
                #[trigger] spec_forest_has(final(self).routes@, p) <==> (spec_forest_has(
                    old(self).routes@,
                    p,
                ) || spec_is_prefix(p, path.deep_view())),
            spec_forest_extended(old(self).routes@, final(self).routes@),
            spec_forest_wf(old(self).routes@) ==> spec_forest_wf(final(self).routes@),
            (spec_forest_wf(old(self).routes@) && spec_forest_has(
                old(self).routes@,
                path.deep_view(),
            )) ==> spec_forest_same(old(self).routes@, final(self).routes@),
    {
        insert_from(&mut self.routes, path, 0);
        proof {
            assert(path.deep_view().skip(0) =~= path.deep_view());
        }
    }
}

impl NodePath {
    /// A leaf holding one segment.
    pub fn constant(value: &str) -> (r: NodePath)
        ensures
            r.value@ == value@,
            r.children@ == Seq::<NodePath>::empty(),
    {
        let node = NodePath { value: value.to_owned(), children: Vec::new() };
        proof {
            assert(node.children@ =~= Seq::<NodePath>::empty());
        }
        node
    }
}

/// The dump of a forest, depth-first: each node prints its indentation
/// prefix, its segment and a line break, then its children one connector
/// deeper.
pub open spec fn spec_forest_display(nodes: Seq<NodePath>, prefix: Seq<char>) -> Seq<char>
    decreases nodes,
{
    if nodes.len() == 0 {
        Seq::empty()
    } else {
        prefix + nodes[0].value@ + "\n"@ + spec_forest_display(
            nodes[0].children@,
            prefix + " -> "@,
        ) + spec_forest_display(nodes.drop_first(), prefix)
    }
}

/// The dump of one node at the given indentation prefix.
pub open spec fn spec_node_display(n: NodePath, prefix: Seq<char>) -> Seq<char> {
    prefix + n.value@ + "\n"@ + spec_forest_display(n.children@, prefix + " -> "@)
}

/// The connector text repeated `n` times.
pub open spec fn spec_indent(n: nat) -> Seq<char>
    decreases n,
{
    if n == 0 {
        Seq::empty()
    } else {
        spec_indent((n - 1) as nat) + " -> "@
    }
}

/// Appending a node to a forest appends its dump.
proof fn lemma_forest_display_snoc(nodes: Seq<NodePath>, x: NodePath, prefix: Seq<char>)
    ensures
        spec_forest_display(nodes.push(x), prefix) == spec_forest_display(nodes, prefix)
            + spec_node_display(x, prefix),
    decreases nodes.len(),
{
    if nodes.len() == 0 {
        assert(nodes.push(x)[0] == x);
        assert(nodes.push(x).drop_first() =~= Seq::<NodePath>::empty());
        assert(spec_forest_display(nodes.push(x).drop_first(), prefix) == Seq::<char>::empty());
        assert(spec_node_display(x, prefix) + Seq::<char>::empty() =~= spec_node_display(
            x,
            prefix,
        ));
        assert(Seq::<char>::empty() + spec_node_display(x, prefix) =~= spec_node_display(
            x,
            prefix,
        ));
        assert(spec_forest_display(nodes.push(x), prefix) =~= spec_node_display(x, prefix));
    } else {
        assert(nodes.push(x)[0] == nodes[0]);
        assert(nodes.push(x).drop_first() =~= nodes.drop_first().push(x));
        lemma_forest_display_snoc(nodes.drop_first(), x, prefix);
        assert((prefix + nodes[0].value@ + "\n"@ + spec_forest_display(
            nodes[0].children@,
            prefix + " -> "@,
        ) + spec_forest_display(nodes.drop_first(), prefix)) + spec_node_display(x, prefix)
            =~= prefix + nodes[0].value@ + "\n"@ + spec_forest_display(
            nodes[0].children@,
            prefix + " -> "@,
        ) + (spec_forest_display(nodes.drop_first(), prefix) + spec_node_display(x, prefix)));
    }
}

impl NodePath {
    /// Renders this node and its subtree at the given indentation prefix.
    fn display_with(&self, prefix: &String) -> (r: String)
        ensures
            r@ == spec_node_display(*self, prefix@),
        decreases *self,
    {
        let mut out = prefix.clone();
        out.append(self.value.as_str());
        out.append("\n");
        let mut child_prefix = prefix.clone();
        child_prefix.append(" -> ");
        let n = self.children.len();
        let mut k: usize = 0;
        proof {
            assert(self.children@.take(0) =~= Seq::<NodePath>::empty());
            assert(out@ + Seq::<char>::empty() =~= out@);
        }
        while k < n
            invariant
                n == self.children@.len(),
                0 <= k <= n,
                child_prefix@ == prefix@ + " -> "@,
                out@ == prefix@ + self.value@ + "\n"@ + spec_forest_display(
                    self.children@.take(k as int),
                    child_prefix@,
                ),
            decreases n - k,
    {
            proof {
                assert(decreases_to!(*self => self.children@[k as int]));
                assert(self.children@.take(k + 1 as int) =~= self.children@.take(k as int).push(
                    self.children@[k as int],
                ));
                lemma_forest_display_snoc(
                    self.children@.take(k as int),
                    self.children@[k as int],
                    child_prefix@,
                );
            }
            let piece = self.children[k].display_with(&child_prefix);
            out.append(piece.as_str());
            k = k + 1;
        }
        proof {
            assert(self.children@.take(n as int) =~= self.children@);
        }
        out
    }

    /// Renders this node and its subtree, indented `offset` connectors
    /// deep.
    pub fn display(&self, offset: usize) -> (r: String)
        ensures
            r@ == spec_node_display(*self, spec_indent(offset as nat)),
    {
        let mut prefix = String::new();
        let mut k: usize = 0;
        while k < offset
            invariant
                0 <= k <= offset,
                prefix@ == spec_indent(k as nat),
            decreases offset - k,
        {
            prefix.append(" -> ");
            k = k + 1;
        }
        self.display_with(&prefix)
    }
}

impl ProxyState {
    /// Renders the whole trie, one top-level segment tree after another,
    /// separated by line breaks.
    pub fn display_routes(&self) -> (r: String)
        ensures
            r@ == spec_routes_display(self.routes@),
    {
        let mut out = String::new();
        let n = self.routes.len();
        let mut k: usize = 0;
        proof {
            assert(self.routes@.take(0) =~= Seq::<NodePath>::empty());
            assert(out@ =~= spec_routes_display(self.routes@.take(0)));
        }
        while k < n
            invariant
                n == self.routes@.len(),
                0 <= k <= n,
                out@ == spec_routes_display(self.routes@.take(k as int)),
            decreases n - k,
        {
            if k > 0 {
                out.append("\n");
            }
            let piece = self.routes[k].display(0);
            proof {
                assert(spec_indent(0) =~= Seq::<char>::empty());
                assert(self.routes@.take(k + 1 as int) =~= self.routes@.take(k as int).push(
                    self.routes@[k as int],
                ));
                lemma_routes_display_snoc(self.routes@.take(k as int), self.routes@[k as int]);
            }
            out.append(piece.as_str());
            k = k + 1;
        }
        proof {
            assert(self.routes@.take(n as int) =~= self.routes@);
        }
        out
    }
}

/// The dump of the top-level trees, `\n`-separated.
pub open spec fn spec_routes_display(nodes: Seq<NodePath>) -> Seq<char>
    decreases nodes,
{
    if nodes.len() == 0 {
        Seq::empty()
    } else {
        spec_node_display(nodes[0], Seq::empty()) + spec_routes_tail(nodes.drop_first())
    }
}

/// The dump of the second and later top-level trees, each preceded by the
/// separator.
pub open spec fn spec_routes_tail(nodes: Seq<NodePath>) -> Seq<char>
    decreases nodes,
{
    if nodes.len() == 0 {
        Seq::empty()
    } else {
        "\n"@ + spec_node_display(nodes[0], Seq::empty()) + spec_routes_tail(nodes.drop_first())
    }
}

/// Appending a tree appends its separated dump.
proof fn lemma_routes_display_snoc(nodes: Seq<NodePath>, x: NodePath)
    ensures
        nodes.len() == 0 ==> spec_routes_display(nodes.push(x)) == spec_node_display(
            x,
            Seq::empty(),
        ),
        nodes.len() > 0 ==> spec_routes_display(nodes.push(x)) == spec_routes_display(nodes) + (
        "\n"@ + spec_node_display(x, Seq::empty())),
    decreases nodes.len(),
{
    if nodes.len() == 0 {
        assert(nodes.push(x)[0] == x);
        assert(nodes.push(x).drop_first() =~= Seq::<NodePath>::empty());
        assert(spec_node_display(x, Seq::empty()) + Seq::<char>::empty() =~= spec_node_display(
            x,
            Seq::empty(),
        ));
    } else {
        assert(nodes.push(x)[0] == nodes[0]);
        assert(nodes.push(x).drop_first() =~= nodes.drop_first().push(x));
        lemma_routes_tail_snoc(nodes.drop_first(), x);
        assert((spec_node_display(nodes[0], Seq::empty()) + spec_routes_tail(nodes.drop_first()))
            + ("\n"@ + spec_node_display(x, Seq::empty())) =~= spec_node_display(
            nodes[0],
            Seq::empty(),
        ) + (spec_routes_tail(nodes.drop_first()) + ("\n"@ + spec_node_display(x, Seq::empty()))));
    }
}

/// Appending a tree to the tail appends its separated dump.
proof fn lemma_routes_tail_snoc(nodes: Seq<NodePath>, x: NodePath)
    ensures
        spec_routes_tail(nodes.push(x)) == spec_routes_tail(nodes) + ("\n"@ + spec_node_display(
            x,
            Seq::empty(),
        )),
    decreases nodes.len(),
{
    if nodes.len() == 0 {
        assert(nodes.push(x)[0] == x);
        assert(nodes.push(x).drop_first() =~= Seq::<NodePath>::empty());
        assert(spec_routes_tail(nodes.push(x).drop_first()) == Seq::<char>::empty());
        assert(("\n"@ + spec_node_display(x, Seq::empty())) + Seq::<char>::empty() =~= "\n"@
            + spec_node_display(x, Seq::empty()));
        assert(Seq::<char>::empty() + ("\n"@ + spec_node_display(x, Seq::empty())) =~= "\n"@
            + spec_node_display(x, Seq::empty()));
    } else {
        assert(nodes.push(x)[0] == nodes[0]);
        assert(nodes.push(x).drop_first() =~= nodes.drop_first().push(x));
        lemma_routes_tail_snoc(nodes.drop_first(), x);
        assert(("\n"@ + spec_node_display(nodes[0], Seq::empty()) + spec_routes_tail(
            nodes.drop_first(),
        )) + ("\n"@ + spec_node_display(x, Seq::empty())) =~= "\n"@ + spec_node_display(
            nodes[0],
            Seq::empty(),
        ) + (spec_routes_tail(nodes.drop_first()) + ("\n"@ + spec_node_display(
            x,
            Seq::empty(),
        ))));
    }
}

} // verus!
