//! What the application holds and how it answers the messages that its
//! parts send.

use vstd::prelude::*;
use iced::pure::widget::canvas::Cache;
use crate::canvas::cache::{clear_cache, new_cache};
use crate::canvas::mode::Mode;
use crate::netwk::model::GraphView;
use crate::netwk::NetworkGraph;
use crate::point::Point;

verus! {

/// The messages that the parts of the application send to its state.
#[derive(Debug, Clone, PartialEq, Eq)]
pub enum Message {
    /// Something happened that asks for no change.
    Ack,
    ChangePenMode(Mode),
    AddNode(Point),
    RemoveNode,
    /// Link the node at the first point to the node at the second.
    AddEdge(Point, Point),
    /// Link the node at the first point to the node at the second by a
    /// curve through the third.
    AddCurve(Point, Point, Point),
    RemoveEdge,
    EditNode,
    EditEdge,
    /// Start over with an empty graph.
    Clear,
}

/// What a [`NetworkUI`] stands for.
pub struct UiView {
    pub pen_mode: Option<Mode>,
    pub graph: GraphView,
}

/// The graph with one more link between the first node at `from` and the
/// first node at `to`, where there are such nodes.
pub open spec fn linked_at(
    g: GraphView,
    from: Point,
    to: Point,
    ctl: Option<Point>,
) -> GraphView {
    match (g.exact_point(from), g.exact_point(to)) {
        (Some(a), Some(b)) => g.connect(a, b, ctl),
        _ => g,
    }
}

impl UiView {
    /// The graph after `message`.
    pub open spec fn graph_after(self, message: Message) -> GraphView {
        match message {
            Message::Clear => GraphView::empty(),
            Message::AddNode(point) => self.graph.add_node(point),
            Message::AddEdge(from, to) => linked_at(self.graph, from, to, None),
            Message::AddCurve(from, to, control) => linked_at(self.graph, from, to, Some(control)),
            _ => self.graph,
        }
    }

    /// The pen mode that `message` asks the canvas to take up, if any.
    pub open spec fn pen_after(self, message: Message) -> Option<Mode> {
        match message {
            Message::ChangePenMode(mode) => Some(mode),
            _ => None,
        }
    }

    /// Whether what was drawn of the graph is out of date after `message`.
    pub open spec fn stale_after(self, message: Message) -> bool {
        match message {
            Message::Clear => true,
            Message::AddNode(_) => true,
            Message::AddEdge(from, to) => self.graph.exact_point(from).is_some()
                && self.graph.exact_point(to).is_some(),
            Message::AddCurve(from, to, _) => self.graph.exact_point(from).is_some()
                && self.graph.exact_point(to).is_some(),
            _ => false,
        }
    }
}

/// The state of the application: the graph, the pen mode that the canvas is
/// asked to take up, and the cache of what was last drawn of the graph.
#[derive(Debug)]
pub struct NetworkUI {
    pen_mode: Option<Mode>,
    graph: NetworkGraph,
    canvas_cache: Cache,
}

impl View for NetworkUI {
    type V = UiView;

    closed spec fn view(&self) -> UiView {
        UiView { pen_mode: self.pen_mode, graph: self.graph@ }
    }
}

impl Default for NetworkUI {
    /// The state at the start.
    fn default() -> (ui: NetworkUI)
        ensures
            ui@ == (UiView { pen_mode: None, graph: GraphView::empty() }),
    {
        NetworkUI::new()
    }
}

impl NetworkUI {
    /// The state at the start: an empty graph, no pen mode asked for, and a
    /// new cache.
    pub fn new() -> (ui: NetworkUI)
        ensures
            ui@ == (UiView { pen_mode: None, graph: GraphView::empty() }),
    {
        NetworkUI { pen_mode: None, graph: NetworkGraph::new(), canvas_cache: new_cache() }
    }

    /// The cache that this state holds.
    pub closed spec fn kept(&self) -> Cache {
        self.canvas_cache
    }

    /// The cache of what was last drawn of the graph.
    pub fn canvas_cache(&self) -> (c: &Cache)
        ensures
            *c == self.kept(),
    {
        &self.canvas_cache
    }

    /// The title of the application's window.
    pub fn title(&self) -> (t: String)
        ensures
            t@ == "ntwk ui"@,
    {
        "ntwk ui".to_owned()
    }

    /// The graph.
    pub fn graph(&self) -> (g: &NetworkGraph)
        ensures
            g@ == self@.graph,
    {
        &self.graph
    }

    /// The pen mode that the canvas is asked to take up, if any.
    pub fn pen_mode(&self) -> (m: &Option<Mode>)
        ensures
            *m == self@.pen_mode,
    {
        &self.pen_mode
    }

    /// Answers `message`: changes the graph as the message asks and notes
    /// the pen mode it asks for, which is none unless the message is there
    /// to change it. Where what was drawn of the graph is out of date after
    /// that, the cache is cleared.
    pub fn update(&mut self, message: Message)
        requires
            message is AddNode ==> old(self)@.graph.next_id < usize::MAX,
        ensures
            final(self)@.graph == old(self)@.graph_after(message),
            final(self)@.pen_mode == old(self)@.pen_after(message),
    {
        if self.apply(message) {
            clear_cache(&mut self.canvas_cache);
        }
    }

    /// Does to the graph and the pen mode what [`NetworkUI::update`] does,
    /// leaves the cache alone, and says whether what was drawn of the graph
    /// is out of date.
    pub fn apply(&mut self, message: Message) -> (stale: bool)
        requires
            message is AddNode ==> old(self)@.graph.next_id < usize::MAX,
        ensures
            final(self)@.graph == old(self)@.graph_after(message),
            final(self)@.pen_mode == old(self)@.pen_after(message),
            final(self).kept() == old(self).kept(),
            stale == old(self)@.stale_after(message),
    {
        let mut stale = false;
        self.pen_mode = match message {
            Message::Clear => {
                self.graph = NetworkGraph::default();
                stale = true;
                None
            },
            Message::AddNode(point) => {
                self.graph.add_node(&point);
                stale = true;
                None
            },
            Message::AddEdge(from, to) => {
                if let Some(point_from) = self.graph.get_exact_point(from) {
                    if let Some(point_to) = self.graph.get_exact_point(to) {
                        self.graph.add_edge(&point_from, &point_to);
                        stale = true;
                    }
                }
                None
            },
            Message::AddCurve(from, to, control) => {
                if let Some(from) = self.graph.get_exact_point(from) {
                    if let Some(to) = self.graph.get_exact_point(to) {
                        self.graph.add_curve(&from, &to, control);
                        stale = true;
                    }
                }
                None
            },
            Message::ChangePenMode(mode) => Some(mode),
            _ => None,
        };
        stale
    }
}

} // verus!
