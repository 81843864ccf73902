use iced::pure::widget::canvas::Cache;
use netwk::canvas::mode::{Mode, PlaceCurveProgress, PlaceEdgeProgress};
use netwk::canvas::{Event, NetworkCanvas, Shape, State, Status, NODE_RADIUS, STROKE_WIDTH};
use netwk::netwk::NetworkGraph;
use netwk::point::Point;
use netwk::ui::{Message, NetworkUI};

fn pt(x: f32, y: f32) -> Point {
    Point::new((x * 1000.0).round() as i64, (y * 1000.0).round() as i64)
}

fn two_nodes() -> NetworkGraph {
    let mut g = NetworkGraph::new();
    g.add_node(&pt(10.0, 10.0));
    g.add_node(&pt(100.0, 100.0));
    g
}

fn press(
    graph: &NetworkGraph,
    asked: Option<Mode>,
    state: &mut State,
    at: Point,
) -> (Status, Option<Message>) {
    let cache = Cache::new();
    NetworkCanvas::new(graph, &cache, &asked).update(state, Event::LeftPress, Some(at))
}

#[test]
fn state_starts_in_view_mode() {
    assert_eq!(State::default().mode(), Mode::View);
    assert_eq!(Mode::default(), Mode::View);
}

#[test]
fn events_off_the_canvas_are_ignored() {
    let g = two_nodes();
    let asked = Some(Mode::PlaceNode);
    let mut state = State::default();
    let cache = Cache::new();
    let canvas = NetworkCanvas::new(&g, &cache, &asked);
    assert_eq!(canvas.update(&mut state, Event::LeftPress, None), (Status::Ignored, None));
    assert_eq!(canvas.update(&mut state, Event::Pointer, None), (Status::Ignored, None));
    assert_eq!(canvas.update(&mut state, Event::Other, None), (Status::Ignored, None));
    // not even the asked-for mode is taken up
    assert_eq!(state.mode(), Mode::View);
}

#[test]
fn other_events_take_up_the_asked_mode_and_send_nothing() {
    let g = two_nodes();
    let asked = Some(Mode::PlaceNode);
    let mut state = State::default();
    let cache = Cache::new();
    let canvas = NetworkCanvas::new(&g, &cache, &asked);
    assert_eq!(
        canvas.update(&mut state, Event::Other, Some(pt(1.0, 1.0))),
        (Status::Ignored, None)
    );
    assert_eq!(state.mode(), Mode::PlaceNode);
    let mut state = State::default();
    assert_eq!(
        canvas.update(&mut state, Event::Pointer, Some(pt(1.0, 1.0))),
        (Status::Captured, None)
    );
    assert_eq!(state.mode(), Mode::PlaceNode);
}

#[test]
fn a_press_in_view_mode_does_nothing() {
    let g = two_nodes();
    let mut state = State::default();
    assert_eq!(press(&g, None, &mut state, pt(10.0, 10.0)), (Status::Captured, None));
    assert_eq!(state.mode(), Mode::View);
    assert_eq!(
        press(&g, Some(Mode::RemoveNode), &mut state, pt(10.0, 10.0)),
        (Status::Captured, None)
    );
    assert_eq!(state.mode(), Mode::RemoveNode);
    assert_eq!(
        press(&g, Some(Mode::RemoveEdge), &mut state, pt(10.0, 10.0)),
        (Status::Captured, None)
    );
    assert_eq!(state.mode(), Mode::RemoveEdge);
}

#[test]
fn placing_a_node_takes_one_press() {
    let g = two_nodes();
    let mut state = State::default();
    let at = pt(40.0, 50.0);
    assert_eq!(
        press(&g, Some(Mode::PlaceNode), &mut state, at),
        (Status::Captured, Some(Message::AddNode(at)))
    );
    assert_eq!(state.mode(), Mode::View);
}

#[test]
fn placing_an_edge_takes_two_presses_near_nodes() {
    let g = two_nodes();
    let mut state = State::default();
    let start = Some(Mode::PlaceEdge(PlaceEdgeProgress::Nothing));
    // a press away from every node picks nothing
    assert_eq!(press(&g, start, &mut state, pt(50.0, 50.0)), (Status::Captured, Some(Message::Ack)));
    assert_eq!(state.mode(), Mode::PlaceEdge(PlaceEdgeProgress::Nothing));
    // a press near the first node picks it, at its own position
    assert_eq!(press(&g, None, &mut state, pt(12.0, 8.0)), (Status::Captured, Some(Message::Ack)));
    assert_eq!(state.mode(), Mode::PlaceEdge(PlaceEdgeProgress::From { from: pt(10.0, 10.0) }));
    // a press away from every node keeps the start and sends nothing
    assert_eq!(press(&g, None, &mut state, pt(50.0, 50.0)), (Status::Captured, None));
    assert_eq!(state.mode(), Mode::PlaceEdge(PlaceEdgeProgress::From { from: pt(10.0, 10.0) }));
    // a press near the second node ends the edge
    assert_eq!(
        press(&g, None, &mut state, pt(101.0, 99.0)),
        (Status::Captured, Some(Message::AddEdge(pt(10.0, 10.0), pt(100.0, 100.0))))
    );
    assert_eq!(state.mode(), Mode::View);
}

#[test]
fn placing_a_curve_takes_three_presses() {
    let g = two_nodes();
    let mut state = State::default();
    let start = Some(Mode::PlaceCurve(PlaceCurveProgress::Nothing));
    assert_eq!(press(&g, start, &mut state, pt(50.0, 50.0)), (Status::Captured, Some(Message::Ack)));
    assert_eq!(state.mode(), Mode::PlaceCurve(PlaceCurveProgress::Nothing));
    assert_eq!(press(&g, None, &mut state, pt(10.0, 14.0)), (Status::Captured, Some(Message::Ack)));
    assert_eq!(state.mode(), Mode::PlaceCurve(PlaceCurveProgress::From { from: pt(10.0, 10.0) }));
    assert_eq!(press(&g, None, &mut state, pt(50.0, 50.0)), (Status::Captured, Some(Message::Ack)));
    assert_eq!(state.mode(), Mode::PlaceCurve(PlaceCurveProgress::From { from: pt(10.0, 10.0) }));
    assert_eq!(press(&g, None, &mut state, pt(96.0, 104.0)), (Status::Captured, Some(Message::Ack)));
    assert_eq!(
        state.mode(),
        Mode::PlaceCurve(PlaceCurveProgress::To { from: pt(10.0, 10.0), to: pt(100.0, 100.0) })
    );
    assert_eq!(
        press(&g, None, &mut state, pt(70.0, 20.0)),
        (
            Status::Captured,
            Some(Message::AddCurve(pt(10.0, 10.0), pt(100.0, 100.0), pt(70.0, 20.0)))
        )
    );
    assert_eq!(state.mode(), Mode::View);
}

#[test]
fn the_asked_mode_overrides_the_progress_made() {
    let g = two_nodes();
    let mut state = State::default();
    let start = Some(Mode::PlaceEdge(PlaceEdgeProgress::Nothing));
    press(&g, start, &mut state, pt(10.0, 10.0));
    assert_eq!(state.mode(), Mode::PlaceEdge(PlaceEdgeProgress::From { from: pt(10.0, 10.0) }));
    // asked again, the pen starts over before it looks at the press
    assert_eq!(press(&g, start, &mut state, pt(100.0, 100.0)), (Status::Captured, Some(Message::Ack)));
    assert_eq!(state.mode(), Mode::PlaceEdge(PlaceEdgeProgress::From { from: pt(100.0, 100.0) }));
}

#[test]
fn pen_preview() {
    let at = pt(3.0, 4.0);
    let from = pt(10.0, 10.0);
    let to = pt(20.0, 20.0);
    assert_eq!(Mode::View.draw(Some(at)), None);
    assert_eq!(Mode::RemoveNode.draw(Some(at)), None);
    assert_eq!(Mode::RemoveEdge.draw(Some(at)), None);
    assert_eq!(Mode::PlaceEdge(PlaceEdgeProgress::Nothing).draw(Some(at)), None);
    assert_eq!(Mode::PlaceCurve(PlaceCurveProgress::Nothing).draw(Some(at)), None);
    assert_eq!(
        Mode::PlaceNode.draw(Some(at)),
        Some(Shape::Circle { center: at, radius: 5000 })
    );
    assert_eq!(
        Mode::PlaceEdge(PlaceEdgeProgress::From { from }).draw(Some(at)),
        Some(Shape::Line { from, to: at, width: 2000 })
    );
    assert_eq!(
        Mode::PlaceCurve(PlaceCurveProgress::From { from }).draw(Some(at)),
        Some(Shape::Line { from, to: at, width: 2000 })
    );
    assert_eq!(
        Mode::PlaceCurve(PlaceCurveProgress::To { from, to }).draw(Some(at)),
        Some(Shape::Curve { from, control: at, to, width: 2000 })
    );
    assert_eq!(Mode::PlaceNode.draw(None), None);
    assert_eq!(Mode::PlaceCurve(PlaceCurveProgress::To { from, to }).draw(None), None);
    assert_eq!(NODE_RADIUS, 5000);
    assert_eq!(STROKE_WIDTH, 2000);
}

#[test]
fn the_scene_lists_each_node_and_then_its_edges() {
    let mut g = two_nodes();
    let a = g.get_exact_point(pt(10.0, 10.0)).unwrap();
    let b = g.get_exact_point(pt(100.0, 100.0)).unwrap();
    g.add_edge(&a, &b);
    g.add_curve(&a, &b, pt(50.0, 0.0));
    let asked = None;
    let cache = Cache::new();
    let canvas = NetworkCanvas::new(&g, &cache, &asked);
    let state = State::default();
    let pa = pt(10.0, 10.0);
    let pb = pt(100.0, 100.0);
    let ctl = pt(50.0, 0.0);
    assert_eq!(
        canvas.draw(&state, Some(pt(1.0, 1.0))),
        (
            vec![
                Shape::Circle { center: pa, radius: NODE_RADIUS },
                Shape::Line { from: pa, to: pb, width: STROKE_WIDTH },
                Shape::Curve { from: pa, control: ctl, to: pb, width: STROKE_WIDTH },
                Shape::Circle { center: pb, radius: NODE_RADIUS },
                Shape::Line { from: pb, to: pa, width: STROKE_WIDTH },
                Shape::Curve { from: pb, control: ctl, to: pa, width: STROKE_WIDTH },
            ],
            None
        )
    );
}

#[test]
fn the_pen_is_drawn_in_a_layer_of_its_own() {
    let g = NetworkGraph::new();
    let asked = Some(Mode::PlaceNode);
    let cache = Cache::new();
    let canvas = NetworkCanvas::new(&g, &cache, &asked);
    let mut state = State::default();
    assert_eq!(canvas.draw(&state, Some(pt(1.0, 1.0))), (vec![], None));
    canvas.update(&mut state, Event::Pointer, Some(pt(1.0, 1.0)));
    assert_eq!(
        canvas.draw(&state, Some(pt(1.0, 1.0))),
        (vec![], Some(Shape::Circle { center: pt(1.0, 1.0), radius: NODE_RADIUS }))
    );
    assert_eq!(canvas.draw(&state, None), (vec![], None));
}

#[test]
fn ui_starts_empty() {
    let ui = NetworkUI::new();
    assert_eq!(ui.title(), "ntwk ui");
    assert_eq!(ui.graph().node_list().len(), 0);
    assert_eq!(*ui.pen_mode(), None);
}

#[test]
fn ui_adds_nodes_and_edges() {
    let mut ui = NetworkUI::new();
    assert!(ui.apply(Message::AddNode(pt(0.0, 0.0))));
    assert!(ui.apply(Message::AddNode(pt(100.0, 100.0))));
    assert_eq!(ui.graph().node_list().len(), 2);
    assert!(ui.apply(Message::AddEdge(pt(0.0, 0.0), pt(100.0, 100.0))));
    assert_eq!(ui.graph().node_list()[0].edges().len(), 1);
    assert_eq!(ui.graph().node_list()[1].edges().len(), 1);
    assert!(ui.apply(Message::AddCurve(pt(100.0, 100.0), pt(0.0, 0.0), pt(9.0, 9.0))));
    assert_eq!(ui.graph().node_list()[0].edges().len(), 2);
    assert_eq!(*ui.graph().node_list()[0].edges()[1].control(), Some(pt(9.0, 9.0)));
    assert_eq!(*ui.graph().node_list()[1].edges()[1].control(), Some(pt(9.0, 9.0)));
    // an end that is no node: nothing changes and nothing is drawn anew
    assert!(!ui.apply(Message::AddEdge(pt(0.0, 0.0), pt(1.0, 1.0))));
    assert!(!ui.apply(Message::AddEdge(pt(1.0, 1.0), pt(0.0, 0.0))));
    assert!(!ui.apply(Message::AddCurve(pt(1.0, 1.0), pt(0.0, 0.0), pt(2.0, 2.0))));
    assert_eq!(ui.graph().node_list()[0].edges().len(), 2);
    assert_eq!(ui.graph().node_list()[1].edges().len(), 2);
}

#[test]
fn ui_pen_mode_lasts_one_message() {
    let mut ui = NetworkUI::new();
    assert!(!ui.apply(Message::ChangePenMode(Mode::PlaceNode)));
    assert_eq!(*ui.pen_mode(), Some(Mode::PlaceNode));
    assert!(!ui.apply(Message::Ack));
    assert_eq!(*ui.pen_mode(), None);
    ui.update(Message::ChangePenMode(Mode::PlaceEdge(PlaceEdgeProgress::Nothing)));
    assert!(ui.apply(Message::AddNode(pt(1.0, 1.0))));
    assert_eq!(*ui.pen_mode(), None);
    for message in [Message::RemoveNode, Message::RemoveEdge, Message::EditNode, Message::EditEdge]
    {
        ui.update(Message::ChangePenMode(Mode::View));
        assert!(!ui.apply(message));
        assert_eq!(*ui.pen_mode(), None);
        assert_eq!(ui.graph().node_list().len(), 1);
    }
}

#[test]
fn ui_clear_starts_over() {
    let mut ui = NetworkUI::new();
    ui.update(Message::AddNode(pt(0.0, 0.0)));
    ui.update(Message::AddNode(pt(1.0, 0.0)));
    ui.update(Message::ChangePenMode(Mode::PlaceNode));
    assert!(ui.apply(Message::Clear));
    assert_eq!(ui.graph().node_list().len(), 0);
    assert_eq!(*ui.pen_mode(), None);
    ui.update(Message::AddNode(pt(0.0, 0.0)));
    assert_eq!(ui.graph().node_list()[0].name(), "0");
}

#[test]
fn ui_update_does_what_apply_does() {
    let mut ui = NetworkUI::default();
    ui.update(Message::AddNode(pt(0.0, 0.0)));
    ui.update(Message::AddNode(pt(100.0, 100.0)));
    ui.update(Message::AddEdge(pt(0.0, 0.0), pt(100.0, 100.0)));
    ui.update(Message::AddCurve(pt(0.0, 0.0), pt(100.0, 100.0), pt(5.0, 5.0)));
    ui.update(Message::AddEdge(pt(0.0, 0.0), pt(7.0, 7.0)));
    assert_eq!(ui.graph().node_list().len(), 2);
    assert_eq!(ui.graph().node_list()[0].edges().len(), 2);
    assert_eq!(ui.graph().node_list()[1].edges().len(), 2);
    ui.update(Message::ChangePenMode(Mode::RemoveNode));
    assert_eq!(*ui.pen_mode(), Some(Mode::RemoveNode));
    ui.update(Message::Ack);
    assert_eq!(*ui.pen_mode(), None);
    ui.update(Message::Clear);
    assert_eq!(ui.graph().node_list().len(), 0);
    let canvas = NetworkCanvas::new(ui.graph(), ui.canvas_cache(), ui.pen_mode());
    assert_eq!(canvas.draw(&State::default(), None), (vec![], None));
    let _kept: &Cache = canvas.cache();
}
