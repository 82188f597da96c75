//! Points and rigid placements on the integer lattice.

use vstd::prelude::*;

verus! {

/// The least coordinate a placed point can have.
pub const PLACED_MIN: i64 = -0x1_0000_0000;

/// The greatest coordinate a placed point can have.
pub const PLACED_MAX: i64 = 0xffff_ffff;

/// A point in the local frame of a shape.
#[derive(Clone, Copy, Debug, PartialEq, Eq, Structural)]
pub struct Point {
    pub x: i32,
    pub y: i32,
}

/// A point after placement. Its coordinates are wide enough to hold the image
/// of any [`Point`] under any [`Isometry`].
#[derive(Clone, Copy, Debug, PartialEq, Eq, Structural)]
pub struct PlacedPoint {
    pub x: i64,
    pub y: i64,
}

/// A rotation about the origin by a whole number of counterclockwise quarter
/// turns. These are the only rotations that map the lattice onto itself.
#[derive(Clone, Copy, Debug, PartialEq, Eq, Structural)]
pub enum Rotation {
    Identity,
    Quarter,
    Half,
    ThreeQuarters,
}

/// A rigid placement: a rotation about the origin followed by a translation.
#[derive(Clone, Copy, Debug, PartialEq, Eq, Structural)]
pub struct Isometry {
    pub rotation: Rotation,
    pub translation: Point,
}

impl Point {
    /// The local point `(x, y)`.
    pub fn new(x: i32, y: i32) -> (p: Point)
        ensures
            p.x == x,
            p.y == y,
    {
        Point { x, y }
    }
}

impl PlacedPoint {
    /// The placed point `(x, y)`.
    pub fn new(x: i64, y: i64) -> (p: PlacedPoint)
        ensures
            p.x == x,
            p.y == y,
    {
        PlacedPoint { x, y }
    }

    /// Whether both coordinates lie in the range that images of local points
    /// fall into.
    pub open spec fn in_placed_range(self) -> bool {
        &&& PLACED_MIN <= self.x <= PLACED_MAX
        &&& PLACED_MIN <= self.y <= PLACED_MAX
    }
}

impl Rotation {
    /// The x coordinate of the image of `(x, y)`.
    pub open spec fn spec_rotate_x(self, x: int, y: int) -> int {
        match self {
            Rotation::Identity => x,
            Rotation::Quarter => -y,
            Rotation::Half => -x,
            Rotation::ThreeQuarters => y,
        }
    }

    /// The y coordinate of the image of `(x, y)`.
    pub open spec fn spec_rotate_y(self, x: int, y: int) -> int {
        match self {
            Rotation::Identity => y,
            Rotation::Quarter => x,
            Rotation::Half => -y,
            Rotation::ThreeQuarters => -x,
        }
    }
}

impl Isometry {
    /// The x coordinate of the image of `(x, y)`, as a mathematical integer.
    pub open spec fn spec_image_x(self, x: int, y: int) -> int {
        self.rotation.spec_rotate_x(x, y) + self.translation.x
    }

    /// The y coordinate of the image of `(x, y)`, as a mathematical integer.
    pub open spec fn spec_image_y(self, x: int, y: int) -> int {
        self.rotation.spec_rotate_y(x, y) + self.translation.y
    }

    /// The image of the local point `pt`. No truncation takes place: see
    /// [`Isometry::lemma_transform_point_exact`].
    pub open spec fn spec_transform_point(self, pt: Point) -> PlacedPoint {
        PlacedPoint {
            x: self.spec_image_x(pt.x as int, pt.y as int) as i64,
            y: self.spec_image_y(pt.x as int, pt.y as int) as i64,
        }
    }

    /// The placement that moves nothing.
    pub open spec fn spec_identity() -> Isometry {
        Isometry { rotation: Rotation::Identity, translation: Point { x: 0, y: 0 } }
    }

    /// The image of a local point has exactly the coordinates that the
    /// placement gives it over the integers, and they lie in the placed range.
    pub proof fn lemma_transform_point_exact(self, pt: Point)
        ensures
            self.spec_transform_point(pt).x == self.spec_image_x(pt.x as int, pt.y as int),
            self.spec_transform_point(pt).y == self.spec_image_y(pt.x as int, pt.y as int),
            self.spec_transform_point(pt).in_placed_range(),
    {
    }

    /// The placement that rotates by `rotation` and then moves by `translation`.
    pub fn new(translation: Point, rotation: Rotation) -> (pos: Isometry)
        ensures
            pos.translation == translation,
            pos.rotation == rotation,
    {
        Isometry { rotation, translation }
    }

    /// The placement that moves nothing.
    pub fn identity() -> (pos: Isometry)
        ensures
            pos == Isometry::spec_identity(),
    {
        Isometry { rotation: Rotation::Identity, translation: Point { x: 0, y: 0 } }
    }

    /// The placement that moves every point by `(x, y)` without rotating.
    pub fn translation(x: i32, y: i32) -> (pos: Isometry)
        ensures
            pos.rotation == Rotation::Identity,
            pos.translation == (Point { x, y }),
    {
        Isometry { rotation: Rotation::Identity, translation: Point { x, y } }
    }

    /// Places a local point: rotates it about the origin, then translates it.
    pub fn transform_point(&self, pt: &Point) -> (placed: PlacedPoint)
        ensures
            placed == self.spec_transform_point(*pt),
            placed.x == self.spec_image_x(pt.x as int, pt.y as int),
            placed.y == self.spec_image_y(pt.x as int, pt.y as int),
    {
        let x: i64 = pt.x as i64;
        let y: i64 = pt.y as i64;
        let tx: i64 = self.translation.x as i64;
        let ty: i64 = self.translation.y as i64;
        match self.rotation {
            Rotation::Identity => PlacedPoint { x: x + tx, y: y + ty },
            Rotation::Quarter => PlacedPoint { x: -y + tx, y: x + ty },
            Rotation::Half => PlacedPoint { x: -x + tx, y: -y + ty },
            Rotation::ThreeQuarters => PlacedPoint { x: y + tx, y: -x + ty },
        }
    }
}

} // verus!
