//! The pen of the canvas: what a press of the pointer is taken to mean.

use vstd::prelude::*;
use crate::canvas::{Shape, NODE_RADIUS, STROKE_WIDTH};
use crate::point::Point;

verus! {

/// The modes of the pen.
#[derive(Debug, Clone, Copy, PartialEq, Eq)]
pub enum Mode {
    /// Presses do nothing.
    View,
    /// The next press places a node.
    PlaceNode,
    /// Presses pick the two ends of a straight edge.
    PlaceEdge(PlaceEdgeProgress),
    /// Presses pick the two ends of a curve and then its control point.
    PlaceCurve(PlaceCurveProgress),
    RemoveNode,
    RemoveEdge,
}

/// How far the placing of an edge has come: press the start, press the end.
#[derive(Debug, Clone, Copy, PartialEq, Eq)]
pub enum PlaceEdgeProgress {
    /// No end is picked yet.
    Nothing,
    /// The start is picked: the node at `from`.
    From { from: Point },
}

/// How far the placing of a curve has come: press the start, press the end,
/// press where the control point goes.
#[derive(Debug, Clone, Copy, PartialEq, Eq)]
pub enum PlaceCurveProgress {
    /// No end is picked yet.
    Nothing,
    /// The start is picked: the node at `from`.
    From { from: Point },
    /// Both ends are picked: the nodes at `from` and at `to`.
    To { from: Point, to: Point },
}

impl Default for Mode {
    fn default() -> (m: Mode)
        ensures
            m == Mode::View,
    {
        Mode::View
    }
}

impl Mode {
    /// What the pen shows under the pointer: the node that a press would
    /// place, or the edge or curve that is being placed, drawn up to the
    /// pointer. Nothing in the other modes, and nothing while the pointer
    /// is off the canvas.
    pub open spec fn preview(self, cursor: Option<Point>) -> Option<Shape> {
        match cursor {
            None => None,
            Some(pos) => match self {
                Mode::PlaceNode => Some(Shape::Circle { center: pos, radius: NODE_RADIUS }),
                Mode::PlaceEdge(PlaceEdgeProgress::From { from }) => Some(
                    Shape::Line { from, to: pos, width: STROKE_WIDTH },
                ),
                Mode::PlaceCurve(PlaceCurveProgress::From { from }) => Some(
                    Shape::Line { from, to: pos, width: STROKE_WIDTH },
                ),
                Mode::PlaceCurve(PlaceCurveProgress::To { from, to }) => Some(
                    Shape::Curve { from, control: pos, to, width: STROKE_WIDTH },
                ),
                _ => None,
            },
        }
    }

    /// Says what to draw for the pen while the pointer is at `cursor`.
    pub fn draw(&self, cursor: Option<Point>) -> (shape: Option<Shape>)
        ensures
            shape == self.preview(cursor),
    {
        match cursor {
            None => None,
            Some(pos) => match self {
                Mode::PlaceNode => Some(Shape::Circle { center: pos, radius: NODE_RADIUS }),
                Mode::PlaceEdge(PlaceEdgeProgress::From { from }) => Some(
                    Shape::Line { from: *from, to: pos, width: STROKE_WIDTH },
                ),
                Mode::PlaceCurve(PlaceCurveProgress::From { from }) => Some(
                    Shape::Line { from: *from, to: pos, width: STROKE_WIDTH },
                ),
                Mode::PlaceCurve(PlaceCurveProgress::To { from, to }) => Some(
                    Shape::Curve { from: *from, control: pos, to: *to, width: STROKE_WIDTH },
                ),
                _ => None,
            },
        }
    }
}

} // verus!
