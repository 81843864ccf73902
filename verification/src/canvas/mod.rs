//! The canvas on which the graph is shown and edited: what it draws, and
//! what it makes of the pointer.

pub mod cache;
pub mod mode;

use vstd::prelude::*;
use iced::pure::widget::canvas::Cache;
use crate::canvas::mode::{Mode, PlaceCurveProgress, PlaceEdgeProgress};
use crate::netwk::model::{ConnectionView, GraphView, NodeView};
use crate::netwk::{connection_views, node_views, Connection, NetworkGraph, Node};
use crate::point::Point;
use crate::ui::Message;

verus! {

/// The radius of the disc that stands for a node: five drawing units.
pub const NODE_RADIUS: i64 = 5000;

/// The width of the stroke of an edge: two drawing units.
pub const STROKE_WIDTH: i64 = 2000;

/// Something to draw.
#[derive(Debug, Clone, Copy, PartialEq, Eq)]
pub enum Shape {
    /// A filled disc.
    Circle { center: Point, radius: i64 },
    /// A straight stroke.
    Line { from: Point, to: Point, width: i64 },
    /// A stroke along the quadratic curve from `from` to `to` that
    /// `control` bends.
    Curve { from: Point, control: Point, to: Point, width: i64 },
}

/// What the canvas tells apart in what happens to it.
#[derive(Debug, Clone, Copy, PartialEq, Eq)]
pub enum Event {
    /// The left button of the pointer was pressed.
    LeftPress,
    /// Something else happened to the pointer.
    Pointer,
    /// Something happened that does not concern the pointer.
    Other,
}

/// Whether the canvas took an event for itself.
#[derive(Debug, Clone, Copy, PartialEq, Eq)]
pub enum Status {
    Ignored,
    Captured,
}

/// What the canvas keeps between events: the mode of its pen.
#[derive(Debug)]
pub struct State {
    mode: Mode,
}

impl View for State {
    type V = Mode;

    closed spec fn view(&self) -> Mode {
        self.mode
    }
}

impl Default for State {
    fn default() -> (s: State)
        ensures
            s@ == Mode::View,
    {
        State { mode: Mode::View }
    }
}

impl State {
    /// The mode of the pen.
    pub fn mode(&self) -> (m: Mode)
        ensures
            m == self@,
    {
        self.mode
    }
}

/// The stroke of a connection that starts at `from`: straight, or bent by
/// the control point where the connection has one.
pub open spec fn edge_shape(from: Point, c: ConnectionView<Point>) -> Shape {
    match c.ctl {
        None => Shape::Line { from, to: c.dst.data, width: STROKE_WIDTH },
        Some(control) => Shape::Curve { from, control, to: c.dst.data, width: STROKE_WIDTH },
    }
}

/// The strokes of a list of connections that start at `from`, one for one.
pub open spec fn edge_shapes(from: Point, edges: Seq<ConnectionView<Point>>) -> Seq<Shape> {
    Seq::new(edges.len(), |k: int| edge_shape(from, edges[k]))
}

/// What is drawn of a node: its disc, then the strokes of its connections
/// in their order.
pub open spec fn node_shapes(v: NodeView<Point>) -> Seq<Shape> {
    seq![Shape::Circle { center: v.data, radius: NODE_RADIUS }] + edge_shapes(v.data, v.edges)
}

/// What is drawn of a list of nodes: each node in turn.
pub open spec fn scene(nodes: Seq<NodeView<Point>>) -> Seq<Shape>
    decreases nodes.len(),
{
    if nodes.len() == 0 {
        Seq::empty()
    } else {
        scene(nodes.drop_last()) + node_shapes(nodes.last())
    }
}

/// The position of the node that a lookup found.
pub open spec fn found_at(g: GraphView, pos: Point) -> Option<Point> {
    match g.near_point(pos) {
        Some(n) => Some(n.data),
        None => None,
    }
}

/// The mode of the pen after the left button was pressed at `pos` in
/// `mode`, over the graph `g`.
pub open spec fn mode_after_press(mode: Mode, g: GraphView, pos: Point) -> Mode {
    match mode {
        Mode::View => Mode::View,
        Mode::PlaceNode => Mode::View,
        Mode::PlaceEdge(PlaceEdgeProgress::Nothing) => Mode::PlaceEdge(
            match found_at(g, pos) {
                Some(from) => PlaceEdgeProgress::From { from },
                None => PlaceEdgeProgress::Nothing,
            },
        ),
        Mode::PlaceEdge(PlaceEdgeProgress::From { from }) => match found_at(g, pos) {
            Some(_) => Mode::View,
            None => mode,
        },
        Mode::PlaceCurve(PlaceCurveProgress::Nothing) => Mode::PlaceCurve(
            match found_at(g, pos) {
                Some(from) => PlaceCurveProgress::From { from },
                None => PlaceCurveProgress::Nothing,
            },
        ),
        Mode::PlaceCurve(PlaceCurveProgress::From { from }) => Mode::PlaceCurve(
            match found_at(g, pos) {
                Some(to) => PlaceCurveProgress::To { from, to },
                None => PlaceCurveProgress::From { from },
            },
        ),
        Mode::PlaceCurve(PlaceCurveProgress::To { .. }) => Mode::View,
        Mode::RemoveNode => Mode::RemoveNode,
        Mode::RemoveEdge => Mode::RemoveEdge,
    }
}

/// The message that the canvas sends after the left button was pressed at
/// `pos` in `mode`, over the graph `g`.
pub open spec fn message_after_press(mode: Mode, g: GraphView, pos: Point) -> Option<Message> {
    match mode {
        Mode::View => None,
        Mode::PlaceNode => Some(Message::AddNode(pos)),
        Mode::PlaceEdge(PlaceEdgeProgress::Nothing) => Some(Message::Ack),
        Mode::PlaceEdge(PlaceEdgeProgress::From { from }) => match found_at(g, pos) {
            Some(to) => Some(Message::AddEdge(from, to)),
            None => None,
        },
        Mode::PlaceCurve(PlaceCurveProgress::Nothing) => Some(Message::Ack),
        Mode::PlaceCurve(PlaceCurveProgress::From { .. }) => Some(Message::Ack),
        Mode::PlaceCurve(PlaceCurveProgress::To { from, to }) => Some(
            Message::AddCurve(from, to, pos),
        ),
        Mode::RemoveNode => None,
        Mode::RemoveEdge => None,
    }
}

/// The mode that the pen works in when an event comes: the one that the
/// application asks for, if it asks for one, else the one it was in.
pub open spec fn mode_in_force(kept: Mode, asked: Option<Mode>) -> Mode {
    match asked {
        Some(mode) => mode,
        None => kept,
    }
}

/// The canvas: the graph it shows, the cache of what was last drawn of the
/// graph, and the pen mode that the application asks it to take up.
pub struct NetworkCanvas<'a> {
    graph: &'a NetworkGraph,
    cache: &'a Cache,
    pen_mode: &'a Option<Mode>,
}

impl<'a> NetworkCanvas<'a> {
    /// The graph that the canvas shows.
    pub closed spec fn graph(&self) -> GraphView {
        self.graph@
    }

    /// The pen mode that the application asks for, if any.
    pub closed spec fn asked(&self) -> Option<Mode> {
        *self.pen_mode
    }

    /// The cache that the canvas was given.
    pub closed spec fn kept(&self) -> Cache {
        *self.cache
    }

    /// A canvas over `graph`, asked to take up `pen_mode`, that keeps what
    /// is drawn of the graph in `cache`.
    pub fn new(graph: &'a NetworkGraph, cache: &'a Cache, pen_mode: &'a Option<Mode>) -> (c:
        NetworkCanvas<'a>)
        ensures
            c.graph() == graph@,
            c.kept() == *cache,
            c.asked() == *pen_mode,
    {
        NetworkCanvas { graph, cache, pen_mode }
    }

    /// The cache in which what is drawn of the graph is kept.
    pub fn cache(&self) -> (c: &'a Cache)
        ensures
            *c == self.kept(),
    {
        self.cache
    }

    /// The position of the first node within the tolerance of `pos`.
    fn node_near(&self, pos: Point) -> (r: Option<Point>)
        ensures
            r == found_at(self.graph(), pos),
    {
        match self.graph.get_near_point(pos) {
            Some(n) => Some(*n.data()),
            None => None,
        }
    }

    /// Says what to draw while the pointer is at `cursor`, in two layers.
    /// The first is the graph: every node as a disc followed by the strokes
    /// of its connections. The second is what the pen shows, if anything.
    pub fn draw(&self, state: &State, cursor: Option<Point>) -> (layers: (
        Vec<Shape>,
        Option<Shape>,
    ))
        ensures
            layers.0@ == scene(self.graph().nodes),
            layers.1 == state@.preview(cursor),
    {
        let nodes = self.graph.node_list();
        let ghost views = self.graph().nodes;
        let mut shapes: Vec<Shape> = Vec::new();
        let mut i: usize = 0;
        assert(views.take(0) =~= Seq::empty());
        while i < nodes.len()
            invariant
                views == node_views(nodes@),
                0 <= i <= nodes.len(),
                shapes@ == scene(views.take(i as int)),
            decreases nodes.len() - i,
        {
            let node = &nodes[i];
            let center = *node.data();
            let edges = node.edges();
            let ghost done = shapes@;
            let ghost v = views[i as int];
            assert(v == node@);
            shapes.push(Shape::Circle { center, radius: NODE_RADIUS });
            let mut k: usize = 0;
            assert(edge_shapes(center, v.edges.take(0)) =~= Seq::empty());
            assert(shapes@ =~= done + seq![Shape::Circle { center, radius: NODE_RADIUS }]
                + edge_shapes(center, v.edges.take(0)));
            while k < edges.len()
                invariant
                    v.edges == connection_views(edges@),
                    0 <= k <= edges.len(),
                    shapes@ == done + seq![Shape::Circle { center, radius: NODE_RADIUS }]
                        + edge_shapes(center, v.edges.take(k as int)),
                decreases edges.len() - k,
            {
                let conn = &edges[k];
                let to = *conn.destination().data();
                let shape = match conn.control() {
                    None => Shape::Line { from: center, to, width: STROKE_WIDTH },
                    Some(control) => Shape::Curve {
                        from: center,
                        control: *control,
                        to,
                        width: STROKE_WIDTH,
                    },
                };
                assert(shape == edge_shape(center, v.edges[k as int]));
                shapes.push(shape);
                assert(edge_shapes(center, v.edges.take(k as int + 1)) =~= edge_shapes(
                    center,
                    v.edges.take(k as int),
                ).push(shape));
                k += 1;
            }
            proof {
                assert(v.edges.take(k as int) =~= v.edges);
                assert(views.take(i as int + 1).drop_last() =~= views.take(i as int));
                assert(views.take(i as int + 1).last() == v);
                assert(shapes@ =~= done + node_shapes(v));
            }
            i += 1;
        }
        assert(views.take(i as int) =~= views);
        (shapes, state.mode.draw(cursor))
    }

    /// Takes an event that came while the pointer was at `cursor`, or off
    /// the canvas where `cursor` is `None`.
    ///
    /// While the pointer is off the canvas the event is ignored and nothing
    /// changes. Else the pen first takes up the mode that the application
    /// asks for, if any. An event that does not concern the pointer is then
    /// ignored; one that does is captured, and a press of the left button
    /// moves the pen on and may send a message.
    pub fn update(&self, state: &mut State, event: Event, cursor: Option<Point>) -> (r: (
        Status,
        Option<Message>,
    ))
        ensures
            cursor is None ==> final(state)@ == old(state)@ && r == (Status::Ignored, None::<Message>),
            cursor is Some && !(event is LeftPress) ==> final(state)@ == mode_in_force(
                old(state)@,
                self.asked(),
            ) && r.1 is None && r.0 == (if event is Other {
                Status::Ignored
            } else {
                Status::Captured
            }),
            cursor is Some && event is LeftPress ==> final(state)@ == mode_after_press(
                mode_in_force(old(state)@, self.asked()),
                self.graph(),
                cursor->0,
            ) && r == (
                Status::Captured,
                message_after_press(
                    mode_in_force(old(state)@, self.asked()),
                    self.graph(),
                    cursor->0,
                ),
            ),
    {
        let cursor_pos = if let Some(position) = cursor {
            position
        } else {
            return (Status::Ignored, None);
        };
        if let Some(new_mode) = self.pen_mode {
            state.mode = *new_mode;
        }
        match event {
            Event::LeftPress => {
                let message = match state.mode {
                    Mode::View => None,
                    Mode::PlaceNode => {
                        state.mode = Mode::View;
                        Some(Message::AddNode(cursor_pos))
                    },
                    Mode::PlaceEdge(progress) => match progress {
                        PlaceEdgeProgress::Nothing => {
                            state.mode = Mode::PlaceEdge(
                                match self.node_near(cursor_pos) {
                                    Some(from) => PlaceEdgeProgress::From { from },
                                    None => PlaceEdgeProgress::Nothing,
                                },
                            );
                            Some(Message::Ack)
                        },
                        PlaceEdgeProgress::From { from } => match self.node_near(cursor_pos) {
                            Some(to) => {
                                state.mode = Mode::View;
                                Some(Message::AddEdge(from, to))
                            },
                            None => None,
                        },
                    },
                    Mode::PlaceCurve(progress) => match progress {
                        PlaceCurveProgress::Nothing => {
                            state.mode = Mode::PlaceCurve(
                                match self.node_near(cursor_pos) {
                                    Some(from) => PlaceCurveProgress::From { from },
                                    None => PlaceCurveProgress::Nothing,
                                },
                            );
                            Some(Message::Ack)
                        },
                        PlaceCurveProgress::From { from } => {
                            state.mode = Mode::PlaceCurve(
                                match self.node_near(cursor_pos) {
                                    Some(to) => PlaceCurveProgress::To { from, to },
                                    None => PlaceCurveProgress::From { from },
                                },
                            );
                            Some(Message::Ack)
                        },
                        PlaceCurveProgress::To { from, to } => {
                            state.mode = Mode::View;
                            Some(Message::AddCurve(from, to, cursor_pos))
                        },
                    },
                    _ => None,
                };
                (Status::Captured, message)
            },
            Event::Pointer => (Status::Captured, None),
            Event::Other => (Status::Ignored, None),
        }
    }
}

} // verus!
