//! The mathematical model of the diagram: what nodes, connections and the
//! graph stand for, and what each operation of the graph makes of them.

use vstd::prelude::*;
use crate::netwk::name::{decimal, number};
use crate::point::Point;

verus! {

/// What a [`NodeRef`] stands for: the identity of a node.
///
/// Two identities name the same node exactly when they are equal: the names
/// are the same strings and the data are the same values.
pub struct NodeRefView<T> {
    pub name: Seq<char>,
    pub data: T,
}

/// What a [`Connection`] stands for.
pub struct ConnectionView<T> {
    pub dst: NodeRefView<T>,
    pub weight: Option<i64>,
    pub ctl: Option<Point>,
}

/// What a [`Node`] stands for.
pub struct NodeView<T> {
    pub name: Seq<char>,
    pub data: T,
    pub edges: Seq<ConnectionView<T>>,
}

impl<T> ConnectionView<T> {
    /// Whether this connection leads to the node that `other` names.
    pub open spec fn leads_to(self, other: NodeRefView<T>) -> bool {
        self.dst == other
    }
}

/// The test that picks the connections leading to `other`.
pub open spec fn leading_to<T>(other: NodeRefView<T>) -> spec_fn(
    ConnectionView<T>,
) -> bool {
    |c: ConnectionView<T>| c.leads_to(other)
}

/// The test that picks the connections leading anywhere but to `other`.
pub open spec fn leading_elsewhere<T>(other: NodeRefView<T>) -> spec_fn(
    ConnectionView<T>,
) -> bool {
    |c: ConnectionView<T>| !c.leads_to(other)
}

impl<T> NodeView<T> {
    /// The identity of this node.
    pub open spec fn id(self) -> NodeRefView<T> {
        NodeRefView { name: self.name, data: self.data }
    }

    /// This node with one more connection at the end of its list.
    pub open spec fn with_edge(self, c: ConnectionView<T>) -> NodeView<T> {
        NodeView { name: self.name, data: self.data, edges: self.edges.push(c) }
    }

    /// This node with every connection that leads to `other` taken out, the
    /// rest in their old order.
    pub open spec fn without(self, other: NodeRefView<T>) -> NodeView<T> {
        NodeView {
            name: self.name,
            data: self.data,
            edges: self.edges.filter(leading_elsewhere(other)),
        }
    }

    /// How many connections of this node lead to `other`.
    pub open spec fn links_to(self, other: NodeRefView<T>) -> nat {
        self.edges.filter(leading_to(other)).len()
    }
}

/// How many times `c` occurs in `s`.
pub open spec fn count<T>(s: Seq<T>, c: T) -> nat
    decreases s.len(),
{
    if s.len() == 0 {
        0
    } else {
        count(s.drop_last(), c) + if s.last() == c {
            1nat
        } else {
            0nat
        }
    }
}

/// The connection that a link made without a weight puts into a list:
/// straight where `ctl` is `None`, else a curve through that point.
pub open spec fn link<T>(dst: NodeRefView<T>, ctl: Option<Point>) -> ConnectionView<T> {
    ConnectionView { dst, weight: None, ctl }
}

impl NodeView<Point> {
    /// This node after a link between `src` and `dst` was made: it gains a
    /// connection to `dst` if it is `src`, and then one to `src` if it is
    /// `dst`.
    pub open spec fn linked(
        self,
        src: NodeRefView<Point>,
        dst: NodeRefView<Point>,
        ctl: Option<Point>,
    ) -> NodeView<Point> {
        let first = if self.id() == src {
            self.with_edge(link(dst, ctl))
        } else {
            self
        };
        if self.id() == dst {
            first.with_edge(link(src, ctl))
        } else {
            first
        }
    }

    /// This node after every link between `src` and `dst` was taken away: it
    /// loses its connections to `dst` if it is `src`, and those to `src` if
    /// it is `dst`.
    pub open spec fn unlinked(
        self,
        src: NodeRefView<Point>,
        dst: NodeRefView<Point>,
    ) -> NodeView<Point> {
        let first = if self.id() == src {
            self.without(dst)
        } else {
            self
        };
        if self.id() == dst {
            first.without(src)
        } else {
            first
        }
    }
}

/// The test that picks every node but the one that `n` names.
pub open spec fn other_than(n: NodeRefView<Point>) -> spec_fn(NodeView<Point>) -> bool {
    |v: NodeView<Point>| v.id() != n
}

/// The change that takes from a node its connections to `n`.
pub open spec fn cut_from(n: NodeRefView<Point>) -> spec_fn(NodeView<Point>) -> NodeView<Point> {
    |v: NodeView<Point>| v.without(n)
}

/// The test that picks the position `pos` and no other.
pub open spec fn at(pos: Point) -> spec_fn(Point) -> bool {
    |p: Point| p == pos
}

/// The test that picks the positions within the tolerance of `pos`.
pub open spec fn around(pos: Point) -> spec_fn(Point) -> bool {
    |p: Point| p.is_near(&pos)
}

/// One operation on a graph.
pub enum Step {
    /// Add a node at a position.
    AddNode(Point),
    /// Remove the node that an identity names.
    RemoveNode(NodeRefView<Point>),
    /// Link two nodes, by a curve where there is a control point.
    Connect(NodeRefView<Point>, NodeRefView<Point>, Option<Point>),
    /// Take away the links between two nodes.
    Disconnect(NodeRefView<Point>, NodeRefView<Point>),
}

/// How many of the operations add a node.
pub open spec fn additions(steps: Seq<Step>) -> nat
    decreases steps.len(),
{
    if steps.len() == 0 {
        0
    } else {
        additions(steps.drop_last()) + if steps.last() is AddNode {
            1nat
        } else {
            0nat
        }
    }
}

/// What a [`crate::netwk::NetworkGraph`] stands for: its nodes in the order
/// in which they were added, and the number that the next node will be named
/// by.
pub struct GraphView {
    pub nodes: Seq<NodeView<Point>>,
    pub next_id: nat,
}

impl GraphView {
    /// The graph without nodes, which names its first node `0`.
    pub open spec fn empty() -> GraphView {
        GraphView { nodes: Seq::empty(), next_id: 0 }
    }

    /// Whether the node that `n` names is in this graph.
    pub open spec fn holds(self, n: NodeRefView<Point>) -> bool {
        exists|i: int| 0 <= i < self.nodes.len() && (#[trigger] self.nodes[i]).id() == n
    }

    /// This graph with a new node at `pos`, named by the next number and
    /// without connections, after all the others.
    pub open spec fn add_node(self, pos: Point) -> GraphView {
        GraphView {
            nodes: self.nodes.push(
                NodeView { name: decimal(self.next_id), data: pos, edges: Seq::empty() },
            ),
            next_id: self.next_id + 1,
        }
    }

    /// This graph without the node that `n` names and without any connection
    /// to it; the other nodes and connections keep their order, and the next
    /// number stays as it was.
    pub open spec fn remove_node(self, n: NodeRefView<Point>) -> GraphView {
        GraphView {
            nodes: self.nodes.filter(other_than(n)).map_values(cut_from(n)),
            next_id: self.next_id,
        }
    }

    /// This graph with one more link between `src` and `dst`, where it holds
    /// both; unchanged where it lacks either.
    pub open spec fn connect(
        self,
        src: NodeRefView<Point>,
        dst: NodeRefView<Point>,
        ctl: Option<Point>,
    ) -> GraphView {
        if self.holds(src) && self.holds(dst) {
            GraphView {
                nodes: self.nodes.map_values(|v: NodeView<Point>| v.linked(src, dst, ctl)),
                next_id: self.next_id,
            }
        } else {
            self
        }
    }

    /// This graph without any link between `src` and `dst`.
    pub open spec fn disconnect(
        self,
        src: NodeRefView<Point>,
        dst: NodeRefView<Point>,
    ) -> GraphView {
        GraphView {
            nodes: self.nodes.map_values(|v: NodeView<Point>| v.unlinked(src, dst)),
            next_id: self.next_id,
        }
    }

    /// This graph after one operation.
    pub open spec fn step(self, s: Step) -> GraphView {
        match s {
            Step::AddNode(pos) => self.add_node(pos),
            Step::RemoveNode(n) => self.remove_node(n),
            Step::Connect(src, dst, ctl) => self.connect(src, dst, ctl),
            Step::Disconnect(src, dst) => self.disconnect(src, dst),
        }
    }

    /// This graph after the operations `steps`, the first of them first.
    pub open spec fn run(self, steps: Seq<Step>) -> GraphView
        decreases steps.len(),
    {
        if steps.len() == 0 {
            self
        } else {
            self.run(steps.drop_last()).step(steps.last())
        }
    }

    /// Whether the node at index `i` is the first, in the order of the
    /// graph, whose position passes the test `hit`.
    pub open spec fn first_hit(self, hit: spec_fn(Point) -> bool, i: int) -> bool {
        &&& 0 <= i < self.nodes.len()
        &&& hit(self.nodes[i].data)
        &&& forall|j: int| 0 <= j < i ==> !hit(#[trigger] self.nodes[j].data)
    }

    /// The first node, in the order of the graph, whose position passes the
    /// test `hit`; `None` where no position passes.
    pub open spec fn find(self, hit: spec_fn(Point) -> bool) -> Option<NodeRefView<Point>> {
        if exists|i: int| self.first_hit(hit, i) {
            Some(self.nodes[choose|i: int| self.first_hit(hit, i)].id())
        } else {
            None
        }
    }

    /// The first node that lies exactly at `pos`.
    pub open spec fn exact_point(self, pos: Point) -> Option<NodeRefView<Point>> {
        self.find(at(pos))
    }

    /// The first node that lies within the tolerance of `pos`.
    pub open spec fn near_point(self, pos: Point) -> Option<NodeRefView<Point>> {
        self.find(around(pos))
    }

    /// Every node is named by the numeral of a number that the graph has
    /// already given out.
    pub open spec fn named(self) -> bool {
        forall|i: int|
            0 <= i < self.nodes.len() ==> {
                let s = #[trigger] self.nodes[i].name;
                s == decimal(number(s)) && number(s) < self.next_id
            }
    }

    /// The numbers in the names grow along the order of the graph.
    pub open spec fn ordered(self) -> bool {
        forall|i: int, j: int|
            0 <= i < j < self.nodes.len() ==> number(#[trigger] self.nodes[i].name) < number(
                #[trigger] self.nodes[j].name,
            )
    }

    /// How many connections of the node at index `i` lead to the node at
    /// index `j` with the given weight and control point.
    pub open spec fn links(
        self,
        i: int,
        j: int,
        weight: Option<i64>,
        ctl: Option<Point>,
    ) -> nat {
        count(self.nodes[i].edges, ConnectionView { dst: self.nodes[j].id(), weight, ctl })
    }

    /// No connection dangles: each leads to a node of the graph.
    pub open spec fn anchored(self) -> bool {
        forall|i: int, k: int|
            0 <= i < self.nodes.len() && 0 <= k < self.nodes[i].edges.len() ==> self.holds(
                (#[trigger] self.nodes[i].edges[k]).dst,
            )
    }

    /// No link is one-sided: a node has as many connections to another as
    /// the other has to it, weight for weight and control point for control
    /// point.
    pub open spec fn symmetric(self) -> bool {
        forall|i: int, j: int, weight: Option<i64>, ctl: Option<Point>|
            0 <= i < self.nodes.len() && 0 <= j < self.nodes.len() ==> #[trigger] self.links(
                i,
                j,
                weight,
                ctl,
            ) == self.links(j, i, weight, ctl)
    }

    /// What holds of every graph that the operations can reach: the names
    /// are the numerals of numbers given out so far, in growing order, no
    /// connection dangles and no link is one-sided.
    pub open spec fn wf(self) -> bool {
        &&& self.named()
        &&& self.ordered()
        &&& self.anchored()
        &&& self.symmetric()
    }
}

} // verus!
