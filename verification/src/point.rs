//! Plane coordinates.
//!
//! A coordinate is a fixed-point number: an integer count of thousandths of
//! a drawing unit. Two points are the same point exactly when both of their
//! coordinates are the same integers.

use vstd::prelude::*;

verus! {

/// The number of coordinate steps in one drawing unit.
pub const UNIT: i64 = 1000;

/// How far apart, in coordinate steps, two coordinates must at least be for
/// them to stop counting as near each other: five drawing units.
pub const NEAR_TOLERANCE: i64 = 5000;

/// A position on the plane.
#[derive(Clone, Copy, Debug)]
pub struct Point {
    pub x: i64,
    pub y: i64,
}

/// Whether two coordinates on one axis lie less than the tolerance apart.
pub open spec fn axis_near(a: i64, b: i64) -> bool {
    -NEAR_TOLERANCE < a - b < NEAR_TOLERANCE
}

impl Point {
    /// The origin of the plane.
    pub fn origin() -> (p: Point)
        ensures
            p == (Point { x: 0, y: 0 }),
    {
        Point { x: 0, y: 0 }
    }

    /// The point with the given coordinates.
    pub fn new(x: i64, y: i64) -> (p: Point)
        ensures
            p == (Point { x, y }),
    {
        Point { x, y }
    }

    /// Whether `other` lies inside the open square of side ten drawing units
    /// centred on this point.
    pub open spec fn is_near(&self, other: &Point) -> bool {
        axis_near(self.x, other.x) && axis_near(self.y, other.y)
    }

    /// Tests whether `other` lies within the tolerance of this point on both
    /// axes, each taken by itself.
    pub fn near(&self, other: &Point) -> (r: bool)
        ensures
            r == self.is_near(other),
    {
        let dx: i128 = self.x as i128 - other.x as i128;
        let dy: i128 = self.y as i128 - other.y as i128;
        let t: i128 = NEAR_TOLERANCE as i128;
        -t < dx && dx < t && -t < dy && dy < t
    }
}

impl PartialEq for Point {
    fn eq(&self, other: &Point) -> (r: bool) {
        self.x == other.x && self.y == other.y
    }
}

impl Eq for Point {}

impl vstd::std_specs::cmp::PartialEqSpecImpl for Point {
    open spec fn obeys_eq_spec() -> bool {
        true
    }

    open spec fn eq_spec(&self, other: &Point) -> bool {
        *self == *other
    }
}

} // verus!
