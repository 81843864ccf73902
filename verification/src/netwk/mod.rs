//! The diagram itself: nodes, the connections each node holds, and the graph
//! that owns the nodes.
//!
//! Nodes do not point at each other. A connection names its destination by
//! the destination's identity, its name together with its data, so a node's
//! connections can be changed through the one place that owns the node.

pub mod laws;
pub mod model;
pub mod name;

use vstd::prelude::*;
use vstd::std_specs::cmp::PartialEqSpec;
use crate::netwk::laws::{
    lemma_add_node_wf, lemma_connect_wf, lemma_disconnect_wf, lemma_names_differ,
    lemma_remove_node_wf,
};
use crate::netwk::model::{
    around, at, cut_from, leading_elsewhere, link, other_than, ConnectionView, GraphView,
    NodeRefView, NodeView,
};
use crate::netwk::name::decimal_name;
use crate::point::Point;

verus! {

/// Whether the `==` of `T` is the equality of its values: it says of two
/// values that they are equal exactly when they are the same value. It is so
/// for the integers and for [`Point`]; for a type of which it is not known,
/// nothing is promised of what depends on comparing its values.
pub open spec fn faithful_eq<T: PartialEq>() -> bool {
    &&& T::obeys_eq_spec()
    &&& forall|a: T, b: T| #[trigger] a.eq_spec(&b) <==> a == b
}

/// The connections that a list of connections stands for, one for one.
pub open spec fn connection_views<T>(s: Seq<Connection<T>>) -> Seq<ConnectionView<T>> {
    Seq::new(s.len(), |i: int| s[i]@)
}

/// The identity of a node: its name and its data. It is what a connection
/// holds of its destination, and what callers hand to the graph to say which
/// node they mean.
#[derive(Debug)]
pub struct NodeRef<T> {
    name: String,
    data: T,
}

impl<T> View for NodeRef<T> {
    type V = NodeRefView<T>;

    closed spec fn view(&self) -> NodeRefView<T> {
        NodeRefView { name: self.name@, data: self.data }
    }
}

impl<T: PartialEq + Copy> NodeRef<T> {
    /// The identity made of `name` and `data`.
    pub fn new(name: String, data: T) -> (r: NodeRef<T>)
        ensures
            r@ == (NodeRefView { name: name@, data }),
    {
        NodeRef { name, data }
    }

    /// The name of the node.
    pub fn name(&self) -> (n: &String)
        ensures
            n@ == self@.name,
    {
        &self.name
    }

    /// The data of the node.
    pub fn data(&self) -> (d: &T)
        ensures
            *d == self@.data,
    {
        &self.data
    }

    /// A second handle on the same identity.
    pub fn duplicate(&self) -> (r: NodeRef<T>)
        ensures
            r@ == self@,
    {
        NodeRef { name: self.name.clone(), data: self.data }
    }

    /// Tests whether this identity and `other` name the same node.
    pub fn same(&self, other: &NodeRef<T>) -> (r: bool)
        ensures
            faithful_eq::<T>() ==> r == (self@ == other@),
    {
        self.name == other.name && self.data == other.data
    }
}

/// One half of a link: held by the node it starts from, it names the node it
/// leads to. A control point, where there is one, bends the link into a
/// quadratic curve through it.
#[derive(Debug)]
pub struct Connection<T> {
    dst: NodeRef<T>,
    weight: Option<i64>,
    ctl: Option<Point>,
}

impl<T> View for Connection<T> {
    type V = ConnectionView<T>;

    closed spec fn view(&self) -> ConnectionView<T> {
        ConnectionView { dst: self.dst@, weight: self.weight, ctl: self.ctl }
    }
}

impl<T: PartialEq + Copy> Connection<T> {
    /// A straight connection to `dst`, without a weight.
    pub fn new(dst: NodeRef<T>) -> (c: Connection<T>)
        ensures
            c@ == (ConnectionView { dst: dst@, weight: None, ctl: None }),
    {
        Connection { dst, weight: None, ctl: None }
    }

    /// A curved connection to `dst` through the control point `ctl`, without
    /// a weight.
    pub fn new_curve(dst: NodeRef<T>, ctl: Point) -> (c: Connection<T>)
        ensures
            c@ == (ConnectionView { dst: dst@, weight: None, ctl: Some(ctl) }),
    {
        Connection { dst, weight: None, ctl: Some(ctl) }
    }

    /// The node this connection leads to.
    pub fn destination(&self) -> (d: &NodeRef<T>)
        ensures
            d@ == self@.dst,
    {
        &self.dst
    }

    /// The weight of this connection, if it has one.
    pub fn weight(&self) -> (w: &Option<i64>)
        ensures
            *w == self@.weight,
    {
        &self.weight
    }

    /// The control point of this connection, if it is a curve.
    pub fn control(&self) -> (c: &Option<Point>)
        ensures
            *c == self@.ctl,
    {
        &self.ctl
    }
}

/// A point of the diagram: a name, the data it carries, and the connections
/// that start from it, in the order in which they were made.
#[derive(Debug)]
pub struct Node<T> {
    name: String,
    data: T,
    edges: Vec<Connection<T>>,
}

impl<T> View for Node<T> {
    type V = NodeView<T>;

    closed spec fn view(&self) -> NodeView<T> {
        NodeView { name: self.name@, data: self.data, edges: connection_views(self.edges@) }
    }
}

impl<T: PartialEq + Copy> Node<T> {
    /// A node with the given name and data and no connections.
    pub fn new(name: String, data: T) -> (node: Node<T>)
        ensures
            node@ == (NodeView { name: name@, data, edges: Seq::empty() }),
    {
        let node = Node { name, data, edges: Vec::new() };
        assert(connection_views(node.edges@) =~= Seq::empty());
        node
    }

    /// The data of this node.
    pub fn data(&self) -> (d: &T)
        ensures
            *d == self@.data,
    {
        &self.data
    }

    /// The connections that start from this node, oldest first.
    pub fn edges(&self) -> (e: &Vec<Connection<T>>)
        ensures
            connection_views(e@) == self@.edges,
            e@.len() == self@.edges.len(),
    {
        &self.edges
    }

    /// The name of this node.
    pub fn name(&self) -> (n: &String)
        ensures
            n@ == self@.name,
    {
        &self.name
    }

    /// The identity of this node, to name it to others.
    pub fn id(&self) -> (r: NodeRef<T>)
        ensures
            r@ == self@.id(),
    {
        NodeRef { name: self.name.clone(), data: self.data }
    }

    /// Tests whether `id` names this node.
    pub fn has_id(&self, id: &NodeRef<T>) -> (r: bool)
        ensures
            faithful_eq::<T>() ==> r == (self@.id() == id@),
    {
        self.name == id.name && self.data == id.data
    }

    /// Appends `c` to the connections of this node.
    fn attach(&mut self, c: Connection<T>)
        ensures
            final(self)@ == old(self)@.with_edge(c@),
    {
        self.edges.push(c);
        assert(connection_views(self.edges@) =~= connection_views(old(self).edges@).push(c@));
    }

    /// Links two nodes by a straight connection: `source` gains a connection
    /// to `dest` and `dest` gains one to `source`, each at the end of its list.
    pub fn connect(source: &mut Node<T>, dest: &mut Node<T>)
        ensures
            final(source)@ == old(source)@.with_edge(
                ConnectionView { dst: old(dest)@.id(), weight: None, ctl: None },
            ),
            final(dest)@ == old(dest)@.with_edge(
                ConnectionView { dst: old(source)@.id(), weight: None, ctl: None },
            ),
    {
        let to_dest = Connection::new(dest.id());
        let to_source = Connection::new(source.id());
        source.attach(to_dest);
        dest.attach(to_source);
    }

    /// Links two nodes by a curve through `ctl`: `source` gains a connection
    /// to `dest` and `dest` gains one to `source`, both with that control
    /// point, each at the end of its list.
    pub fn connect_with_curve(source: &mut Node<T>, dest: &mut Node<T>, ctl: Point)
        ensures
            final(source)@ == old(source)@.with_edge(
                ConnectionView { dst: old(dest)@.id(), weight: None, ctl: Some(ctl) },
            ),
            final(dest)@ == old(dest)@.with_edge(
                ConnectionView { dst: old(source)@.id(), weight: None, ctl: Some(ctl) },
            ),
    {
        let to_dest = Connection::new_curve(dest.id(), ctl);
        let to_source = Connection::new_curve(source.id(), ctl);
        source.attach(to_dest);
        dest.attach(to_source);
    }

    /// Takes out of this node's list every connection that leads to `other`,
    /// however many there are, and keeps the rest in their order.
    pub fn disconnect(&mut self, other: &NodeRef<T>)
        ensures
            final(self)@.name == old(self)@.name,
            final(self)@.data == old(self)@.data,
            faithful_eq::<T>() ==> final(self)@ == old(self)@.without(other@),
    {
        let ghost before = self@.edges;
        let ghost keep = leading_elsewhere(other@);
        let ghost mut seen: int = 0;
        let mut i: usize = 0;
        assert(connection_views(self.edges@).take(0) =~= before.take(0).filter(keep));
        assert(connection_views(self.edges@).skip(0) =~= before.skip(0));
        while i < self.edges.len()
            invariant
                self.name == old(self).name,
                self.data == old(self).data,
                keep == leading_elsewhere(other@),
                before == old(self)@.edges,
                0 <= i <= self.edges.len(),
                0 <= seen <= before.len(),
                seen + (self.edges.len() - i) == before.len(),
                faithful_eq::<T>() ==> connection_views(self.edges@).take(i as int)
                    == before.take(seen).filter(keep),
                connection_views(self.edges@).skip(i as int) == before.skip(seen),
            decreases self.edges.len() - i,
        {
            let ghost cur = connection_views(self.edges@);
            proof {
                assert(cur.skip(i as int)[0] == before.skip(seen)[0]);
                assert(before.take(seen + 1) =~= before.take(seen).push(before[seen]));
                Seq::lemma_filter_push(before.take(seen), before[seen], keep);
            }
            if self.edges[i].dst.same(other) {
                self.edges.remove(i);
                proof {
                    let now = connection_views(self.edges@);
                    assert(now.take(i as int) =~= cur.take(i as int));
                    assert(now.skip(i as int) =~= cur.skip(i as int).skip(1));
                    assert(before.skip(seen + 1) =~= before.skip(seen).skip(1));
                }
            } else {
                proof {
                    assert(cur.take(i as int + 1) =~= cur.take(i as int).push(cur[i as int]));
                    assert(cur.skip(i as int + 1) =~= cur.skip(i as int).skip(1));
                    assert(before.skip(seen + 1) =~= before.skip(seen).skip(1));
                }
                i += 1;
            }
            proof {
                seen = seen + 1;
            }
        }
        proof {
            let now = connection_views(self.edges@);
            assert(now.take(i as int) =~= now);
            assert(before.take(seen) =~= before);
        }
    }
}

impl<T: PartialEq> PartialEq for Node<T> {
    /// Two nodes are the same node when their names and their data are
    /// equal; their connections do not count.
    fn eq(&self, other: &Node<T>) -> (r: bool) {
        self.name == other.name && self.data == other.data
    }
}

impl<T: PartialEq> vstd::std_specs::cmp::PartialEqSpecImpl for Node<T> {
    open spec fn obeys_eq_spec() -> bool {
        T::obeys_eq_spec()
    }

    open spec fn eq_spec(&self, other: &Node<T>) -> bool {
        self@.name == other@.name && self@.data.eq_spec(&other@.data)
    }
}

/// The nodes that a list of nodes stands for, one for one.
pub open spec fn node_views<T>(s: Seq<Node<T>>) -> Seq<NodeView<T>> {
    Seq::new(s.len(), |i: int| s[i]@)
}

/// The `==` of [`Point`] is the equality of its values.
pub proof fn lemma_point_eq_faithful()
    ensures
        faithful_eq::<Point>(),
{
}

/// The diagram: the nodes in the order in which they were added, each with
/// its connections, and the counter from which the nodes get their names.
#[derive(Debug)]
pub struct NetworkGraph {
    nodes: Vec<Node<Point>>,
    last_id: usize,
}

impl View for NetworkGraph {
    type V = GraphView;

    closed spec fn view(&self) -> GraphView {
        GraphView { nodes: node_views(self.nodes@), next_id: self.last_id as nat }
    }
}

impl Default for NetworkGraph {
    /// The graph without nodes.
    fn default() -> (g: NetworkGraph)
        ensures
            g@ == GraphView::empty(),
            g@.wf(),
    {
        NetworkGraph::new()
    }
}

impl NetworkGraph {
    #[verifier::type_invariant]
    spec fn inv(self) -> bool {
        self@.wf()
    }

    /// The graph without nodes.
    pub fn new() -> (g: NetworkGraph)
        ensures
            g@ == GraphView::empty(),
            g@.wf(),
    {
        let g = NetworkGraph { nodes: Vec::new(), last_id: 0 };
        assert(node_views(g.nodes@) =~= Seq::empty());
        g
    }

    /// The nodes of the graph, in the order in which they were added.
    pub fn node_list(&self) -> (l: &Vec<Node<Point>>)
        ensures
            node_views(l@) == self@.nodes,
            l@.len() == self@.nodes.len(),
            self@.wf(),
    {
        proof {
            use_type_invariant(self);
        }
        &self.nodes
    }

    /// The number by which the next node will be named.
    pub fn next_id(&self) -> (n: usize)
        ensures
            n == self@.next_id,
    {
        self.last_id
    }

    /// Adds a node at `pos`. It is named by the decimal numeral of the next
    /// number, has no connections and comes after all the other nodes; the
    /// next number grows by one. No check is made for a node that is
    /// already at `pos`.
    pub fn add_node(&mut self, pos: &Point)
        requires
            old(self)@.next_id < usize::MAX,
        ensures
            final(self)@ == old(self)@.add_node(*pos),
            final(self)@.wf(),
    {
        proof {
            use_type_invariant(&*self);
            lemma_add_node_wf(self@, *pos);
        }
        let node = Node::new(decimal_name(self.last_id), *pos);
        let mut nodes: Vec<Node<Point>> = Vec::new();
        core::mem::swap(&mut self.nodes, &mut nodes);
        nodes.push(node);
        assert(node_views(nodes@) =~= old(self)@.add_node(*pos).nodes);
        self.last_id = self.last_id + 1;
        core::mem::swap(&mut self.nodes, &mut nodes);
    }

    /// Removes the node that `node_ref` names, and from every node its
    /// connections to that node. The other nodes and connections keep their
    /// order. Where the graph does not hold the node, nothing changes.
    pub fn remove_node(&mut self, node_ref: &NodeRef<Point>)
        ensures
            final(self)@ == old(self)@.remove_node(node_ref@),
            final(self)@.wf(),
    {
        let ghost before = self@.nodes;
        let ghost keep = other_than(node_ref@);
        let ghost cut = cut_from(node_ref@);
        let ghost mut seen: int = 0;
        proof {
            use_type_invariant(&*self);
            lemma_remove_node_wf(self@, node_ref@);
            lemma_point_eq_faithful();
        }
        let mut nodes: Vec<Node<Point>> = Vec::new();
        core::mem::swap(&mut self.nodes, &mut nodes);
        let mut i: usize = 0;
        assert(node_views(nodes@).take(0) =~= before.take(0).filter(keep).map_values(cut));
        assert(node_views(nodes@).skip(0) =~= before.skip(0));
        while i < nodes.len()
            invariant
                faithful_eq::<Point>(),
                keep == other_than(node_ref@),
                cut == cut_from(node_ref@),
                0 <= i <= nodes.len(),
                0 <= seen <= before.len(),
                seen + (nodes.len() - i) == before.len(),
                node_views(nodes@).take(i as int) == before.take(seen).filter(keep).map_values(
                    cut,
                ),
                node_views(nodes@).skip(i as int) == before.skip(seen),
            decreases nodes.len() - i,
        {
            let ghost cur = node_views(nodes@);
            proof {
                assert(cur.skip(i as int)[0] == before.skip(seen)[0]);
                assert(before.take(seen + 1) =~= before.take(seen).push(before[seen]));
                Seq::lemma_filter_push(before.take(seen), before[seen], keep);
                assert(before.skip(seen + 1) =~= before.skip(seen).skip(1));
            }
            if nodes[i].has_id(node_ref) {
                nodes.remove(i);
                proof {
                    let now = node_views(nodes@);
                    assert(now.take(i as int) =~= cur.take(i as int));
                    assert(now.skip(i as int) =~= cur.skip(i as int).skip(1));
                }
            } else {
                nodes[i].disconnect(node_ref);
                proof {
                    let now = node_views(nodes@);
                    assert(now.take(i as int + 1) =~= cur.take(i as int).push(
                        cut(before[seen]),
                    ));
                    assert(before.take(seen).filter(keep).push(before[seen]).map_values(cut)
                        =~= before.take(seen).filter(keep).map_values(cut).push(
                        cut(before[seen]),
                    ));
                    assert(now.skip(i as int + 1) =~= cur.skip(i as int).skip(1));
                }
                i += 1;
            }
            proof {
                seen = seen + 1;
            }
        }
        proof {
            let now = node_views(nodes@);
            assert(now.take(i as int) =~= now);
            assert(before.take(seen) =~= before);
        }
        core::mem::swap(&mut self.nodes, &mut nodes);
    }

    /// Makes one link between the nodes that `src` and `dst` name, where the
    /// graph holds both.
    fn join(&mut self, src: &NodeRef<Point>, dst: &NodeRef<Point>, ctl: Option<Point>)
        ensures
            final(self)@ == old(self)@.connect(src@, dst@, ctl),
            final(self)@.wf(),
    {
        let ghost g = self@;
        proof {
            use_type_invariant(&*self);
            lemma_connect_wf(g, src@, dst@, ctl);
        }
        let from = self.position(src);
        let to = self.position(dst);
        if let Some(i) = from {
            if let Some(j) = to {
                let mut nodes: Vec<Node<Point>> = Vec::new();
                core::mem::swap(&mut self.nodes, &mut nodes);
                nodes[i].attach(Connection { dst: dst.duplicate(), weight: None, ctl });
                nodes[j].attach(Connection { dst: src.duplicate(), weight: None, ctl });
                proof {
                    let now = node_views(nodes@);
                    let want = g.connect(src@, dst@, ctl).nodes;
                    assert(g.holds(src@) && g.holds(dst@));
                    assert forall|k: int| 0 <= k < now.len() implies now[k] == want[k] by {
                        if g.nodes[k].id() == src@ {
                            lemma_names_differ(g, k, i as int);
                        }
                        if g.nodes[k].id() == dst@ {
                            lemma_names_differ(g, k, j as int);
                        }
                        if i != j {
                            if g.nodes[i as int].id() == dst@ {
                                lemma_names_differ(g, i as int, j as int);
                            }
                            if g.nodes[j as int].id() == src@ {
                                lemma_names_differ(g, i as int, j as int);
                            }
                        }
                    }
                    assert(now =~= want);
                }
                core::mem::swap(&mut self.nodes, &mut nodes);
            }
        }
    }

    /// Links the nodes that `node_src` and `node_dst` name by a straight
    /// edge: each gains one connection to the other, at the end of its list.
    /// Where the two name the same node, that node gains two connections to
    /// itself. Where the graph lacks either node, nothing changes.
    pub fn add_edge(&mut self, node_src: &NodeRef<Point>, node_dst: &NodeRef<Point>)
        ensures
            final(self)@ == old(self)@.connect(node_src@, node_dst@, None),
            final(self)@.wf(),
    {
        self.join(node_src, node_dst, None)
    }

    /// Links the nodes that `node_src` and `node_dst` name by a curve
    /// through `control`: each gains one connection to the other with that
    /// control point, at the end of its list. Where the two name the same
    /// node, that node gains two connections to itself. Where the graph
    /// lacks either node, nothing changes.
    pub fn add_curve(
        &mut self,
        node_src: &NodeRef<Point>,
        node_dst: &NodeRef<Point>,
        control: Point,
    )
        ensures
            final(self)@ == old(self)@.connect(node_src@, node_dst@, Some(control)),
            final(self)@.wf(),
    {
        self.join(node_src, node_dst, Some(control))
    }

    /// Takes away every link between the nodes that `node_src` and
    /// `node_dst` name: the first loses all its connections to the second
    /// and the second all its connections to the first. Nothing else
    /// changes, and nothing at all where there is no such link.
    pub fn remove_edge(&mut self, node_src: &NodeRef<Point>, node_dst: &NodeRef<Point>)
        ensures
            final(self)@ == old(self)@.disconnect(node_src@, node_dst@),
            final(self)@.wf(),
    {
        let ghost g = self@;
        proof {
            use_type_invariant(&*self);
            lemma_disconnect_wf(g, node_src@, node_dst@);
            lemma_point_eq_faithful();
        }
        let mut nodes: Vec<Node<Point>> = Vec::new();
        core::mem::swap(&mut self.nodes, &mut nodes);
        let mut i: usize = 0;
        while i < nodes.len()
            invariant
                faithful_eq::<Point>(),
                0 <= i <= nodes.len(),
                nodes.len() == g.nodes.len(),
                forall|k: int|
                    0 <= k < i ==> #[trigger] node_views(nodes@)[k] == g.nodes[k].unlinked(
                        node_src@,
                        node_dst@,
                    ),
                forall|k: int| i <= k < nodes.len() ==> #[trigger] node_views(nodes@)[k] == g.nodes[k],
            decreases nodes.len() - i,
        {
            let ghost cur = node_views(nodes@);
            let ghost start = g.nodes[i as int];
            assert(cur[i as int] == start);
            if nodes[i].has_id(node_src) {
                nodes[i].disconnect(node_dst);
            }
            let ghost mid = node_views(nodes@);
            assert(mid[i as int] == (if start.id() == node_src@ {
                start.without(node_dst@)
            } else {
                start
            }));
            assert(mid[i as int].id() == start.id());
            if nodes[i].has_id(node_dst) {
                nodes[i].disconnect(node_src);
            }
            proof {
                let now = node_views(nodes@);
                assert(now[i as int] == start.unlinked(node_src@, node_dst@));
                assert forall|k: int| 0 <= k < nodes.len() && k != i implies #[trigger] now[k]
                    == cur[k] by {
                    assert(mid[k] == cur[k]);
                }
            }
            i += 1;
        }
        assert(node_views(nodes@) =~= g.disconnect(node_src@, node_dst@).nodes);
        core::mem::swap(&mut self.nodes, &mut nodes);
    }

    /// The first node, in the order of the graph, whose position passes the
    /// test; the caller tells it apart by `exact`: the position `pos` itself,
    /// or any position within the tolerance of `pos`.
    fn lookup(&self, pos: Point, exact: bool) -> (r: Option<NodeRef<Point>>)
        ensures
            match r {
                Some(n) => self@.find(if exact { at(pos) } else { around(pos) }) == Some(n@),
                None => self@.find(if exact { at(pos) } else { around(pos) }).is_none(),
            },
    {
        let ghost hit = if exact { at(pos) } else { around(pos) };
        let mut i: usize = 0;
        while i < self.nodes.len()
            invariant
                hit == (if exact { at(pos) } else { around(pos) }),
                0 <= i <= self.nodes.len(),
                forall|j: int| 0 <= j < i ==> !hit(#[trigger] self@.nodes[j].data),
            decreases self.nodes.len() - i,
        {
            let here = self.nodes[i].data();
            let found = if exact { *here == pos } else { here.near(&pos) };
            if found {
                proof {
                    assert(self@.nodes[i as int].data == *here);
                    assert(self@.first_hit(hit, i as int));
                    let k = choose|k: int| self@.first_hit(hit, k);
                    assert(k == i) by {
                        if k < i {
                            assert(!hit(self@.nodes[k].data));
                        } else if i < k {
                            assert(!hit(self@.nodes[i as int].data));
                        }
                    }
                }
                return Some(self.nodes[i].id());
            }
            i += 1;
        }
        proof {
            assert forall|k: int| !self@.first_hit(hit, k) by {
                if 0 <= k < self@.nodes.len() {
                    assert(!hit(self@.nodes[k].data));
                }
            }
        }
        None
    }

    /// The first node, in the order of the graph, that lies exactly at
    /// `pos`; `None` where there is none.
    pub fn get_exact_point(&self, pos: Point) -> (r: Option<NodeRef<Point>>)
        ensures
            match r {
                Some(n) => self@.exact_point(pos) == Some(n@),
                None => self@.exact_point(pos).is_none(),
            },
    {
        self.lookup(pos, true)
    }

    /// The first node, in the order of the graph, that lies within the
    /// tolerance of `pos` on both axes; `None` where there is none. Among
    /// several such nodes the one added first is returned, not the nearest.
    pub fn get_near_point(&self, pos: Point) -> (r: Option<NodeRef<Point>>)
        ensures
            match r {
                Some(n) => self@.near_point(pos) == Some(n@),
                None => self@.near_point(pos).is_none(),
            },
    {
        self.lookup(pos, false)
    }

    /// The index of the node that `id` names, if the graph holds it.
    fn position(&self, id: &NodeRef<Point>) -> (r: Option<usize>)
        ensures
            match r {
                Some(i) => i < self@.nodes.len() && self@.nodes[i as int].id() == id@,
                None => !self@.holds(id@),
            },
    {
        proof {
            lemma_point_eq_faithful();
        }
        let mut i: usize = 0;
        while i < self.nodes.len()
            invariant
                faithful_eq::<Point>(),
                0 <= i <= self.nodes.len(),
                forall|j: int| 0 <= j < i ==> (#[trigger] self@.nodes[j]).id() != id@,
            decreases self.nodes.len() - i,
        {
            if self.nodes[i].has_id(id) {
                return Some(i);
            }
            i += 1;
        }
        None
    }
}

} // verus!
