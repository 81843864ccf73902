//! What holds of every graph: the facts that the operations keep, and the
//! laws that relate one operation to another.

use vstd::prelude::*;
use crate::netwk::model::{
    additions, at, count, cut_from, leading_elsewhere, leading_to, link, other_than,
    ConnectionView, GraphView, NodeRefView, NodeView, Step,
};
use crate::netwk::name::{decimal, lemma_number_of_decimal, number};
use crate::point::Point;

verus! {

/// Appending `x` raises the count of `x` by one and leaves every other count.
pub proof fn lemma_count_push<T>(s: Seq<T>, x: T, c: T)
    ensures
        count(s.push(x), c) == count(s, c) + if x == c {
            1nat
        } else {
            0nat
        },
{
    assert(s.push(x).drop_last() =~= s);
}

/// What does not occur is counted zero times.
pub proof fn lemma_count_absent<T>(s: Seq<T>, c: T)
    requires
        forall|k: int| 0 <= k < s.len() ==> s[k] != c,
    ensures
        count(s, c) == 0,
    decreases s.len(),
{
    if s.len() > 0 {
        let r = s.drop_last();
        assert forall|k: int| 0 <= k < r.len() implies r[k] != c by {
            assert(r[k] == s[k]);
        }
        lemma_count_absent(r, c);
    }
}

/// A filter keeps the count of what passes it and leaves none of the rest.
pub proof fn lemma_count_filter<T>(s: Seq<T>, p: spec_fn(T) -> bool, c: T)
    ensures
        count(s.filter(p), c) == if p(c) {
            count(s, c)
        } else {
            0
        },
    decreases s.len(),
{
    reveal(Seq::filter);
    if s.len() > 0 {
        let r = s.drop_last();
        let x = s.last();
        lemma_count_filter(r, p, c);
        if p(x) {
            lemma_count_push(r.filter(p), x, c);
        }
    }
}

/// In a graph that the operations can reach no two nodes share a name, so
/// an identity names at most one node.
pub proof fn lemma_names_differ(g: GraphView, i: int, j: int)
    requires
        g.wf(),
        0 <= i < g.nodes.len(),
        0 <= j < g.nodes.len(),
        g.nodes[i].name == g.nodes[j].name,
    ensures
        i == j,
{
    if i < j {
        assert(number(g.nodes[i].name) < number(g.nodes[j].name));
    } else if j < i {
        assert(number(g.nodes[j].name) < number(g.nodes[i].name));
    }
}

/// The empty graph is one that the operations can reach.
pub proof fn lemma_empty_wf()
    ensures
        GraphView::empty().wf(),
{
}

/// A node that a graph holds is held by any graph whose nodes have, index
/// for index, the same identities.
proof fn lemma_holds_kept(g: GraphView, h: GraphView, n: NodeRefView<Point>)
    requires
        g.holds(n),
        g.nodes.len() <= h.nodes.len(),
        forall|i: int| 0 <= i < g.nodes.len() ==> (#[trigger] h.nodes[i]).id() == g.nodes[i].id(),
    ensures
        h.holds(n),
{
    let i = choose|i: int| 0 <= i < g.nodes.len() && (#[trigger] g.nodes[i]).id() == n;
    assert(h.nodes[i].id() == n);
}

/// The links of a graph with a new node: those it had, and none from or to
/// the new node.
proof fn lemma_add_node_links(
    g: GraphView,
    pos: Point,
    i: int,
    j: int,
    weight: Option<i64>,
    ctl: Option<Point>,
)
    requires
        g.named(),
        g.anchored(),
        0 <= i <= g.nodes.len(),
        0 <= j <= g.nodes.len(),
    ensures
        g.add_node(pos).links(i, j, weight, ctl) == if i < g.nodes.len() && j < g.nodes.len() {
            g.links(i, j, weight, ctl)
        } else {
            0
        },
{
    let h = g.add_node(pos);
    let m = g.nodes.len() as int;
    if i == m {
        assert(h.nodes[i].edges.len() == 0);
    } else if j == m {
        let c = ConnectionView { dst: h.nodes[j].id(), weight, ctl };
        let edges = g.nodes[i].edges;
        assert(h.nodes[i] == g.nodes[i]);
        lemma_number_of_decimal(g.next_id);
        assert forall|k: int| 0 <= k < edges.len() implies edges[k] != c by {
            assert(g.holds(g.nodes[i].edges[k].dst));
            let t = choose|t: int|
                0 <= t < g.nodes.len() && (#[trigger] g.nodes[t]).id() == edges[k].dst;
            assert(number(g.nodes[t].name) < g.next_id);
        }
        lemma_count_absent(edges, c);
    } else {
        assert(h.nodes[i] == g.nodes[i]);
        assert(h.nodes[j] == g.nodes[j]);
    }
}

/// Adding a node keeps the graph among those that the operations can reach.
pub proof fn lemma_add_node_wf(g: GraphView, pos: Point)
    requires
        g.wf(),
    ensures
        g.add_node(pos).wf(),
{
    let h = g.add_node(pos);
    lemma_number_of_decimal(g.next_id);
    assert forall|i: int| 0 <= i < h.nodes.len() implies {
        let s = #[trigger] h.nodes[i].name;
        s == decimal(number(s)) && number(s) < h.next_id
    } by {
        if i < g.nodes.len() {
            assert(h.nodes[i] == g.nodes[i]);
        }
    }
    assert forall|i: int, j: int| 0 <= i < j < h.nodes.len() implies number(
        #[trigger] h.nodes[i].name,
    ) < number(#[trigger] h.nodes[j].name) by {
        assert(h.nodes[i] == g.nodes[i]);
        if j < g.nodes.len() {
            assert(h.nodes[j] == g.nodes[j]);
        }
    }
    assert forall|i: int| 0 <= i < g.nodes.len() implies (#[trigger] h.nodes[i]).id()
        == g.nodes[i].id() by {
        assert(h.nodes[i] == g.nodes[i]);
    }
    assert forall|i: int, k: int|
        0 <= i < h.nodes.len() && 0 <= k < h.nodes[i].edges.len() implies h.holds(
        (#[trigger] h.nodes[i].edges[k]).dst,
    ) by {
        if i < g.nodes.len() {
            assert(h.nodes[i] == g.nodes[i]);
            assert(g.holds(g.nodes[i].edges[k].dst));
            lemma_holds_kept(g, h, g.nodes[i].edges[k].dst);
        }
    }
    assert forall|i: int, j: int, weight: Option<i64>, ctl: Option<Point>|
        0 <= i < h.nodes.len() && 0 <= j < h.nodes.len() implies #[trigger] h.links(
        i,
        j,
        weight,
        ctl,
    ) == h.links(j, i, weight, ctl) by {
        lemma_add_node_links(g, pos, i, j, weight, ctl);
        lemma_add_node_links(g, pos, j, i, weight, ctl);
        if i < g.nodes.len() && j < g.nodes.len() {
            assert(g.links(i, j, weight, ctl) == g.links(j, i, weight, ctl));
        }
    }
}

/// Whether `v` is what is left of a node of `g` other than `n` once its
/// connections to `n` are gone.
pub open spec fn survivor(g: GraphView, n: NodeRefView<Point>, v: NodeView<Point>) -> bool {
    exists|i: int|
        0 <= i < g.nodes.len() && (#[trigger] g.nodes[i]).id() != n && v == g.nodes[i].without(n)
}

/// Taking nodes out of a graph and connections out of its nodes leaves the
/// names of the nodes that stay in their order.
proof fn lemma_filter_keeps_names(g: GraphView, n: NodeRefView<Point>)
    requires
        g.named(),
        g.ordered(),
    ensures
        g.remove_node(n).named(),
        g.remove_node(n).ordered(),
        forall|k: int|
            0 <= k < g.remove_node(n).nodes.len() ==> survivor(
                g,
                n,
                #[trigger] g.remove_node(n).nodes[k],
            ),
    decreases g.nodes.len(),
{
    let keep = other_than(n);
    let cut = cut_from(n);
    let h = g.remove_node(n);
    if g.nodes.len() == 0 {
        assert(g.nodes.filter(keep) =~= Seq::empty());
    } else {
        let last = g.nodes.last();
        let g1 = GraphView { nodes: g.nodes.drop_last(), next_id: g.next_id };
        let h1 = g1.remove_node(n);
        assert forall|i: int| 0 <= i < g1.nodes.len() implies #[trigger] g1.nodes[i]
            == g.nodes[i] by {}
        assert(g1.named());
        assert(g1.ordered());
        lemma_filter_keeps_names(g1, n);
        assert(g.nodes =~= g1.nodes.push(last));
        Seq::lemma_filter_push(g1.nodes, last, keep);
        if keep(last) {
            assert(h.nodes =~= h1.nodes.push(cut(last)));
            assert forall|k: int| 0 <= k < h.nodes.len() implies survivor(
                g,
                n,
                #[trigger] h.nodes[k],
            ) by {
                if k < h1.nodes.len() {
                    assert(h.nodes[k] == h1.nodes[k]);
                    assert(survivor(g1, n, h1.nodes[k]));
                    let i = choose|i: int|
                        0 <= i < g1.nodes.len() && (#[trigger] g1.nodes[i]).id() != n
                            && h1.nodes[k] == g1.nodes[i].without(n);
                    assert(g.nodes[i] == g1.nodes[i]);
                } else {
                    assert(h.nodes[k] == g.nodes[g.nodes.len() - 1].without(n));
                }
            }
            assert forall|i: int, j: int| 0 <= i < j < h.nodes.len() implies number(
                #[trigger] h.nodes[i].name,
            ) < number(#[trigger] h.nodes[j].name) by {
                assert(h.nodes[i] == h1.nodes[i]);
                assert(survivor(g1, n, h1.nodes[i]));
                let a = choose|a: int|
                    0 <= a < g1.nodes.len() && (#[trigger] g1.nodes[a]).id() != n
                        && h1.nodes[i] == g1.nodes[a].without(n);
                assert(g.nodes[a] == g1.nodes[a]);
                if j < h1.nodes.len() {
                    assert(h.nodes[j] == h1.nodes[j]);
                } else {
                    assert(h.nodes[j].name == g.nodes[g.nodes.len() - 1].name);
                    assert(number(g.nodes[a].name) < number(g.nodes[g.nodes.len() - 1].name));
                }
            }
            assert forall|i: int| 0 <= i < h.nodes.len() implies {
                let s = #[trigger] h.nodes[i].name;
                s == decimal(number(s)) && number(s) < h.next_id
            } by {
                if i < h1.nodes.len() {
                    assert(h.nodes[i] == h1.nodes[i]);
                } else {
                    assert(h.nodes[i].name == g.nodes[g.nodes.len() - 1].name);
                }
            }
        } else {
            assert(h.nodes =~= h1.nodes);
            assert forall|k: int| 0 <= k < h.nodes.len() implies survivor(
                g,
                n,
                #[trigger] h.nodes[k],
            ) by {
                assert(survivor(g1, n, h1.nodes[k]));
                let i = choose|i: int|
                    0 <= i < g1.nodes.len() && (#[trigger] g1.nodes[i]).id() != n
                        && h1.nodes[k] == g1.nodes[i].without(n);
                assert(g.nodes[i] == g1.nodes[i]);
            }
        }
    }
}

/// Every node other than `n` is still there once `n` is removed, less its
/// connections to `n`.
proof fn lemma_others_stay(g: GraphView, n: NodeRefView<Point>, i: int)
    requires
        0 <= i < g.nodes.len(),
        g.nodes[i].id() != n,
    ensures
        exists|k: int|
            0 <= k < g.remove_node(n).nodes.len() && #[trigger] g.remove_node(n).nodes[k]
                == g.nodes[i].without(n),
{
    let keep = other_than(n);
    let kept = g.nodes.filter(keep);
    Seq::lemma_filter_contains(g.nodes, keep, i);
    let k = choose|k: int| 0 <= k < kept.len() && kept[k] == g.nodes[i];
    assert(g.remove_node(n).nodes[k] == g.nodes[i].without(n));
}

/// What is left of a list of connections after a filter was in the list
/// before.
proof fn lemma_filtered_was_there<T>(s: Seq<T>, p: spec_fn(T) -> bool, k: int)
    requires
        0 <= k < s.filter(p).len(),
    ensures
        p(s.filter(p)[k]),
        exists|q: int| 0 <= q < s.len() && #[trigger] s[q] == s.filter(p)[k],
{
    Seq::lemma_filter_pred(s, p, k);
    assert(s.filter(p).contains(s.filter(p)[k]));
    Seq::lemma_filter_contains_rev(s, p, s.filter(p)[k]);
}

/// Removing a node keeps the graph among those that the operations can
/// reach.
pub proof fn lemma_remove_node_wf(g: GraphView, n: NodeRefView<Point>)
    requires
        g.wf(),
    ensures
        g.remove_node(n).wf(),
{
    let h = g.remove_node(n);
    lemma_filter_keeps_names(g, n);
    assert forall|a: int, k: int|
        0 <= a < h.nodes.len() && 0 <= k < h.nodes[a].edges.len() implies h.holds(
        (#[trigger] h.nodes[a].edges[k]).dst,
    ) by {
        assert(survivor(g, n, h.nodes[a]));
        let i = choose|i: int|
            0 <= i < g.nodes.len() && (#[trigger] g.nodes[i]).id() != n && h.nodes[a]
                == g.nodes[i].without(n);
        let e = h.nodes[a].edges[k];
        lemma_filtered_was_there(g.nodes[i].edges, leading_elsewhere(n), k);
        let q = choose|q: int| 0 <= q < g.nodes[i].edges.len() && #[trigger] g.nodes[i].edges[q] == e;
        assert(g.holds(g.nodes[i].edges[q].dst));
        let b = choose|b: int| 0 <= b < g.nodes.len() && (#[trigger] g.nodes[b]).id() == e.dst;
        lemma_others_stay(g, n, b);
        let t = choose|t: int|
            0 <= t < h.nodes.len() && #[trigger] h.nodes[t] == g.nodes[b].without(n);
        assert(h.nodes[t].id() == e.dst);
    }
    assert forall|a: int, b: int, weight: Option<i64>, ctl: Option<Point>|
        0 <= a < h.nodes.len() && 0 <= b < h.nodes.len() implies #[trigger] h.links(
        a,
        b,
        weight,
        ctl,
    ) == h.links(b, a, weight, ctl) by {
        assert(survivor(g, n, h.nodes[a]));
        assert(survivor(g, n, h.nodes[b]));
        let i = choose|i: int|
            0 <= i < g.nodes.len() && (#[trigger] g.nodes[i]).id() != n && h.nodes[a]
                == g.nodes[i].without(n);
        let j = choose|j: int|
            0 <= j < g.nodes.len() && (#[trigger] g.nodes[j]).id() != n && h.nodes[b]
                == g.nodes[j].without(n);
        lemma_count_filter(
            g.nodes[i].edges,
            leading_elsewhere(n),
            ConnectionView { dst: g.nodes[j].id(), weight, ctl },
        );
        lemma_count_filter(
            g.nodes[j].edges,
            leading_elsewhere(n),
            ConnectionView { dst: g.nodes[i].id(), weight, ctl },
        );
        assert(g.links(i, j, weight, ctl) == g.links(j, i, weight, ctl));
    }
}

/// How often a connection occurs in the list of a node after a link was
/// made.
proof fn lemma_linked_count(
    v: NodeView<Point>,
    src: NodeRefView<Point>,
    dst: NodeRefView<Point>,
    ctl: Option<Point>,
    c: ConnectionView<Point>,
)
    ensures
        count(v.linked(src, dst, ctl).edges, c) == count(v.edges, c) + (if v.id() == src && link(
            dst,
            ctl,
        ) == c {
            1nat
        } else {
            0nat
        }) + (if v.id() == dst && link(src, ctl) == c {
            1nat
        } else {
            0nat
        }),
{
    let first = if v.id() == src {
        v.with_edge(link(dst, ctl))
    } else {
        v
    };
    if v.id() == src {
        lemma_count_push(v.edges, link(dst, ctl), c);
    }
    if v.id() == dst {
        lemma_count_push(first.edges, link(src, ctl), c);
    }
}

/// Making a link keeps the graph among those that the operations can reach.
pub proof fn lemma_connect_wf(
    g: GraphView,
    src: NodeRefView<Point>,
    dst: NodeRefView<Point>,
    ctl: Option<Point>,
)
    requires
        g.wf(),
    ensures
        g.connect(src, dst, ctl).wf(),
{
    let h = g.connect(src, dst, ctl);
    if g.holds(src) && g.holds(dst) {
        assert forall|i: int| 0 <= i < h.nodes.len() implies #[trigger] h.nodes[i].name
            == g.nodes[i].name by {}
        assert forall|i: int| 0 <= i < g.nodes.len() implies (#[trigger] h.nodes[i]).id()
            == g.nodes[i].id() by {}
        lemma_holds_kept(g, h, src);
        lemma_holds_kept(g, h, dst);
        assert forall|a: int, k: int|
            0 <= a < h.nodes.len() && 0 <= k < h.nodes[a].edges.len() implies h.holds(
            (#[trigger] h.nodes[a].edges[k]).dst,
        ) by {
            let e = h.nodes[a].edges[k];
            assert(h.nodes[a] == g.nodes[a].linked(src, dst, ctl));
            if k < g.nodes[a].edges.len() {
                assert(e == g.nodes[a].edges[k]);
                assert(g.holds(g.nodes[a].edges[k].dst));
                lemma_holds_kept(g, h, e.dst);
            } else {
                assert(e.dst == src || e.dst == dst);
            }
        }
        assert forall|a: int, b: int, weight: Option<i64>, c: Option<Point>|
            0 <= a < h.nodes.len() && 0 <= b < h.nodes.len() implies #[trigger] h.links(
            a,
            b,
            weight,
            c,
        ) == h.links(b, a, weight, c) by {
            lemma_linked_count(
                g.nodes[a],
                src,
                dst,
                ctl,
                ConnectionView { dst: g.nodes[b].id(), weight, ctl: c },
            );
            lemma_linked_count(
                g.nodes[b],
                src,
                dst,
                ctl,
                ConnectionView { dst: g.nodes[a].id(), weight, ctl: c },
            );
            assert(g.links(a, b, weight, c) == g.links(b, a, weight, c));
        }
    }
}

/// How often a connection occurs in the list of a node after the links
/// between two nodes were taken away.
proof fn lemma_unlinked_count(
    v: NodeView<Point>,
    src: NodeRefView<Point>,
    dst: NodeRefView<Point>,
    c: ConnectionView<Point>,
)
    ensures
        count(v.unlinked(src, dst).edges, c) == if (v.id() == src && c.dst == dst) || (v.id()
            == dst && c.dst == src) {
            0
        } else {
            count(v.edges, c)
        },
{
    let first = if v.id() == src {
        v.without(dst)
    } else {
        v
    };
    if v.id() == src {
        lemma_count_filter(v.edges, leading_elsewhere(dst), c);
    }
    if v.id() == dst {
        lemma_count_filter(first.edges, leading_elsewhere(src), c);
    }
}

/// Each connection that a node has after the links between two nodes were
/// taken away is one that it had before.
proof fn lemma_unlinked_was_there(
    v: NodeView<Point>,
    src: NodeRefView<Point>,
    dst: NodeRefView<Point>,
    k: int,
)
    requires
        0 <= k < v.unlinked(src, dst).edges.len(),
    ensures
        exists|q: int| 0 <= q < v.edges.len() && #[trigger] v.edges[q] == v.unlinked(src, dst).edges[k],
{
    let first = if v.id() == src {
        v.without(dst)
    } else {
        v
    };
    let e = v.unlinked(src, dst).edges[k];
    if v.id() == dst {
        lemma_filtered_was_there(first.edges, leading_elsewhere(src), k);
    }
    let m = choose|m: int| 0 <= m < first.edges.len() && #[trigger] first.edges[m] == e;
    if v.id() == src {
        lemma_filtered_was_there(v.edges, leading_elsewhere(dst), m);
    }
}

/// Taking the links between two nodes away keeps the graph among those that
/// the operations can reach.
pub proof fn lemma_disconnect_wf(g: GraphView, src: NodeRefView<Point>, dst: NodeRefView<Point>)
    requires
        g.wf(),
    ensures
        g.disconnect(src, dst).wf(),
{
    let h = g.disconnect(src, dst);
    assert forall|i: int| 0 <= i < h.nodes.len() implies #[trigger] h.nodes[i].name
        == g.nodes[i].name by {}
    assert forall|i: int| 0 <= i < g.nodes.len() implies (#[trigger] h.nodes[i]).id()
        == g.nodes[i].id() by {}
    assert forall|a: int, k: int|
        0 <= a < h.nodes.len() && 0 <= k < h.nodes[a].edges.len() implies h.holds(
        (#[trigger] h.nodes[a].edges[k]).dst,
    ) by {
        let e = h.nodes[a].edges[k];
        assert(h.nodes[a] == g.nodes[a].unlinked(src, dst));
        lemma_unlinked_was_there(g.nodes[a], src, dst, k);
        let q = choose|q: int| 0 <= q < g.nodes[a].edges.len() && #[trigger] g.nodes[a].edges[q] == e;
        assert(g.holds(g.nodes[a].edges[q].dst));
        lemma_holds_kept(g, h, e.dst);
    }
    assert forall|a: int, b: int, weight: Option<i64>, c: Option<Point>|
        0 <= a < h.nodes.len() && 0 <= b < h.nodes.len() implies #[trigger] h.links(
        a,
        b,
        weight,
        c,
    ) == h.links(b, a, weight, c) by {
        lemma_unlinked_count(
            g.nodes[a],
            src,
            dst,
            ConnectionView { dst: g.nodes[b].id(), weight, ctl: c },
        );
        lemma_unlinked_count(
            g.nodes[b],
            src,
            dst,
            ConnectionView { dst: g.nodes[a].id(), weight, ctl: c },
        );
        assert(g.links(a, b, weight, c) == g.links(b, a, weight, c));
    }
}

/// A filter that nothing passes leaves nothing.
pub proof fn lemma_filter_nothing<T>(s: Seq<T>, p: spec_fn(T) -> bool)
    requires
        forall|k: int| 0 <= k < s.len() ==> !p(#[trigger] s[k]),
    ensures
        s.filter(p).len() == 0,
    decreases s.len(),
{
    reveal(Seq::filter);
    if s.len() > 0 {
        let r = s.drop_last();
        assert forall|k: int| 0 <= k < r.len() implies !p(#[trigger] r[k]) by {
            assert(r[k] == s[k]);
        }
        lemma_filter_nothing(r, p);
        assert(!p(s[s.len() - 1]));
    }
}

/// One more connection is one more connection to its destination and to no
/// other node.
pub proof fn lemma_with_edge_links<T>(v: NodeView<T>, c: ConnectionView<T>, other: NodeRefView<T>)
    ensures
        v.with_edge(c).links_to(other) == v.links_to(other) + if c.dst == other {
            1nat
        } else {
            0nat
        },
{
    Seq::lemma_filter_push(v.edges, c, leading_to(other));
}

/// Linking two nodes gives each exactly one more connection to the other,
/// both with the same control point, whatever connections they had.
pub proof fn lemma_connect_symmetry<T>(
    source: NodeView<T>,
    dest: NodeView<T>,
    ctl: Option<Point>,
)
    ensures
        source.with_edge(link(dest.id(), ctl)).links_to(dest.id()) == source.links_to(dest.id())
            + 1,
        dest.with_edge(link(source.id(), ctl)).links_to(source.id()) == dest.links_to(
            source.id(),
        ) + 1,
        source.with_edge(link(dest.id(), ctl)).edges.last().ctl == ctl,
        dest.with_edge(link(source.id(), ctl)).edges.last().ctl == ctl,
{
    lemma_with_edge_links(source, link(dest.id(), ctl), dest.id());
    lemma_with_edge_links(dest, link(source.id(), ctl), source.id());
}

/// In a graph, linking two different nodes gives the first exactly one more
/// connection to the second and the second exactly one more to the first,
/// both with the same control point and at the end of their lists, and
/// changes no other node.
pub proof fn lemma_graph_connect_symmetry(
    g: GraphView,
    i: int,
    j: int,
    ctl: Option<Point>,
)
    requires
        g.wf(),
        0 <= i < g.nodes.len(),
        0 <= j < g.nodes.len(),
        i != j,
    ensures
        ({
            let a = g.nodes[i].id();
            let b = g.nodes[j].id();
            let h = g.connect(a, b, ctl);
            &&& h.nodes.len() == g.nodes.len()
            &&& h.nodes[i] == g.nodes[i].with_edge(link(b, ctl))
            &&& h.nodes[j] == g.nodes[j].with_edge(link(a, ctl))
            &&& h.nodes[i].links_to(b) == g.nodes[i].links_to(b) + 1
            &&& h.nodes[j].links_to(a) == g.nodes[j].links_to(a) + 1
            &&& forall|k: int|
                0 <= k < g.nodes.len() && k != i && k != j ==> #[trigger] h.nodes[k] == g.nodes[k]
        }),
{
    let a = g.nodes[i].id();
    let b = g.nodes[j].id();
    let h = g.connect(a, b, ctl);
    assert(g.holds(a) && g.holds(b));
    if a == b {
        lemma_names_differ(g, i, j);
    }
    lemma_with_edge_links(g.nodes[i], link(b, ctl), b);
    lemma_with_edge_links(g.nodes[j], link(a, ctl), a);
    assert forall|k: int| 0 <= k < g.nodes.len() && k != i && k != j implies #[trigger] h.nodes[k]
        == g.nodes[k] by {
        if g.nodes[k].id() == a {
            lemma_names_differ(g, k, i);
        }
        if g.nodes[k].id() == b {
            lemma_names_differ(g, k, j);
        }
    }
}

/// After a node was disconnected from another it has no connection to it
/// left, however many it had.
pub proof fn lemma_disconnect_leaves_none<T>(v: NodeView<T>, other: NodeRefView<T>)
    ensures
        v.without(other).links_to(other) == 0,
        forall|k: int|
            0 <= k < v.without(other).edges.len() ==> (#[trigger] v.without(other).edges[k]).dst
                != other,
{
    let rest = v.without(other).edges;
    assert forall|k: int| 0 <= k < rest.len() implies (#[trigger] rest[k]).dst != other by {
        Seq::lemma_filter_pred(v.edges, leading_elsewhere(other), k);
    }
    lemma_filter_nothing(rest, leading_to(other));
}

/// Two parallel connections to a node, made one after the other, are both
/// gone after one disconnect.
pub proof fn lemma_disconnect_multiplicity<T>(
    v: NodeView<T>,
    other: NodeRefView<T>,
    first: Option<Point>,
    second: Option<Point>,
)
    ensures
        v.with_edge(link(other, first)).with_edge(link(other, second)).links_to(other)
            == v.links_to(other) + 2,
        v.with_edge(link(other, first)).with_edge(link(other, second)).without(other).links_to(
            other,
        ) == 0,
{
    lemma_with_edge_links(v, link(other, first), other);
    lemma_with_edge_links(v.with_edge(link(other, first)), link(other, second), other);
    lemma_disconnect_leaves_none(
        v.with_edge(link(other, first)).with_edge(link(other, second)),
        other,
    );
}

/// After a node was removed the graph does not hold it, and no connection
/// of any node that is left leads to it.
pub proof fn lemma_removal_complete(g: GraphView, n: NodeRefView<Point>)
    ensures
        !g.remove_node(n).holds(n),
        forall|i: int|
            0 <= i < g.remove_node(n).nodes.len() ==> (#[trigger] g.remove_node(n).nodes[i]).id()
                != n,
        forall|i: int, k: int|
            0 <= i < g.remove_node(n).nodes.len() && 0 <= k < g.remove_node(
                n,
            ).nodes[i].edges.len() ==> (#[trigger] g.remove_node(n).nodes[i].edges[k]).dst != n,
        g.remove_node(n).next_id == g.next_id,
{
    let h = g.remove_node(n);
    let kept = g.nodes.filter(other_than(n));
    assert forall|i: int| 0 <= i < h.nodes.len() implies (#[trigger] h.nodes[i]).id() != n by {
        Seq::lemma_filter_pred(g.nodes, other_than(n), i);
        assert(h.nodes[i] == kept[i].without(n));
    }
    assert forall|i: int, k: int|
        0 <= i < h.nodes.len() && 0 <= k < h.nodes[i].edges.len() implies (
    #[trigger] h.nodes[i].edges[k]).dst != n by {
        assert(h.nodes[i] == kept[i].without(n));
        lemma_disconnect_leaves_none(kept[i], n);
    }
}

/// Where some node passes a test, some node is the first to pass it.
proof fn lemma_first_hit_exists(g: GraphView, hit: spec_fn(Point) -> bool, i: int)
    requires
        0 <= i < g.nodes.len(),
        hit(g.nodes[i].data),
    ensures
        exists|k: int| 0 <= k <= i && g.first_hit(hit, k),
    decreases i,
{
    if exists|j: int| 0 <= j < i && hit(#[trigger] g.nodes[j].data) {
        let j = choose|j: int| 0 <= j < i && hit(#[trigger] g.nodes[j].data);
        lemma_first_hit_exists(g, hit, j);
    } else {
        assert(g.first_hit(hit, i));
    }
}

/// A lookup finds a node exactly when some node passes the test, and the
/// node it finds is a node of the graph that passes the test, with no node
/// before it that does.
pub proof fn lemma_find(g: GraphView, hit: spec_fn(Point) -> bool)
    ensures
        g.find(hit).is_none() <==> forall|i: int|
            0 <= i < g.nodes.len() ==> !hit(#[trigger] g.nodes[i].data),
        g.find(hit) matches Some(r) ==> hit(r.data) && g.holds(r) && exists|i: int|
            g.first_hit(hit, i) && g.nodes[i].id() == r,
{
    if exists|i: int| g.first_hit(hit, i) {
        let i = choose|i: int| g.first_hit(hit, i);
        assert(hit(g.nodes[i].data));
    } else {
        assert forall|i: int| 0 <= i < g.nodes.len() implies !hit(#[trigger] g.nodes[i].data) by {
            if hit(g.nodes[i].data) {
                lemma_first_hit_exists(g, hit, i);
            }
        }
    }
}

/// Once a node was added at a position, the lookup of that exact position
/// finds a node, and the node it finds lies at that position.
pub proof fn lemma_exact_point_after_add(g: GraphView, pos: Point)
    ensures
        g.add_node(pos).exact_point(pos) matches Some(r) && r.data == pos && g.add_node(
            pos,
        ).holds(r),
{
    let h = g.add_node(pos);
    lemma_find(h, at(pos));
    assert(at(pos)(h.nodes[g.nodes.len() as int].data));
}

/// The node that gets the next name is named by the numeral of the next
/// number, which is greater than the number in the name of every node of
/// the graph, so its name is the name of none of them.
pub proof fn lemma_fresh_name(g: GraphView, pos: Point)
    requires
        g.wf(),
    ensures
        g.add_node(pos).nodes.last().name == decimal(g.next_id),
        number(g.add_node(pos).nodes.last().name) == g.next_id,
        forall|i: int|
            0 <= i < g.nodes.len() ==> number(#[trigger] g.nodes[i].name) < g.next_id
                && g.nodes[i].name != decimal(g.next_id),
{
    lemma_number_of_decimal(g.next_id);
}

/// Whatever operations are made on a graph, in whatever order, the next
/// number grows by one with each node added and with nothing else, so no
/// name is given out twice; and the nodes of the graph have names that all
/// differ, with numbers that grow in the order in which they were added.
pub proof fn lemma_names_never_reused(g: GraphView, steps: Seq<Step>)
    requires
        g.wf(),
    ensures
        g.run(steps).wf(),
        g.run(steps).next_id == g.next_id + additions(steps),
        forall|i: int|
            0 <= i < g.run(steps).nodes.len() ==> number(#[trigger] g.run(steps).nodes[i].name)
                < g.run(steps).next_id,
        forall|i: int, j: int|
            0 <= i < j < g.run(steps).nodes.len() ==> number(
                #[trigger] g.run(steps).nodes[i].name,
            ) < number(#[trigger] g.run(steps).nodes[j].name) && g.run(steps).nodes[i].name
                != g.run(steps).nodes[j].name,
    decreases steps.len(),
{
    if steps.len() > 0 {
        let before = g.run(steps.drop_last());
        lemma_names_never_reused(g, steps.drop_last());
        match steps.last() {
            Step::AddNode(pos) => lemma_add_node_wf(before, pos),
            Step::RemoveNode(n) => lemma_remove_node_wf(before, n),
            Step::Connect(src, dst, ctl) => lemma_connect_wf(before, src, dst, ctl),
            Step::Disconnect(src, dst) => lemma_disconnect_wf(before, src, dst),
        }
    }
}

} // verus!
