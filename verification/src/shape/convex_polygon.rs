//! The convex polygon, a primitive shape.

use crate::math::Point;
use vstd::prelude::*;

verus! {

/// A convex polygon, given by its vertices in the order in which they follow
/// one another on the outline.
///
/// Its view is the sequence of its vertices.
#[derive(Debug)]
pub struct ConvexPolygon {
    points: Vec<Point>,
}

impl View for ConvexPolygon {
    type V = Seq<Point>;

    closed spec fn view(&self) -> Seq<Point> {
        self.points@
    }
}

impl ConvexPolygon {
    /// The polygon with the vertices `points`. They are taken as they are:
    /// that they lie on a convex outline is the caller's business, and no
    /// bound computed here depends on it.
    pub fn from_convex_polyline(points: Vec<Point>) -> (poly: ConvexPolygon)
        ensures
            poly@ == points@,
    {
        ConvexPolygon { points }
    }

    /// The vertices of this polygon.
    pub fn points(&self) -> (pts: &[Point])
        ensures
            pts@ == self@,
    {
        self.points.as_slice()
    }
}

} // verus!
