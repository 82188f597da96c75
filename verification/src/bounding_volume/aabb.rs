//! Axis-aligned bounding boxes and the algebra of merging them.

use crate::math::{Isometry, PlacedPoint, Rotation};
use vstd::prelude::*;

verus! {

/// An axis-aligned box, given by its lower and upper corner. Both faces
/// belong to the box.
///
/// A box is *valid* when its lower corner is componentwise at most its upper
/// corner. The box of [`Aabb::new_invalid`] is not valid; it stands for "no
/// volume yet" and is the neutral element of [`Aabb::merge`].
#[derive(Clone, Copy, Debug, PartialEq, Eq, Structural)]
pub struct Aabb {
    pub mins: PlacedPoint,
    pub maxs: PlacedPoint,
}

/// The merge of all boxes of `boxes`, taken from the left, starting from the
/// invalid box.
pub open spec fn merge_all(boxes: Seq<Aabb>) -> Aabb
    decreases boxes.len(),
{
    if boxes.len() == 0 {
        Aabb::spec_new_invalid()
    } else {
        merge_all(boxes.drop_last()).spec_merged(boxes.last())
    }
}

impl Aabb {
    /// The invalid box: no point lies between its corners.
    pub open spec fn spec_new_invalid() -> Aabb {
        Aabb {
            mins: PlacedPoint { x: i64::MAX, y: i64::MAX },
            maxs: PlacedPoint { x: i64::MIN, y: i64::MIN },
        }
    }

    /// Whether the lower corner is componentwise at most the upper corner.
    pub open spec fn spec_is_valid(self) -> bool {
        self.mins.x <= self.maxs.x && self.mins.y <= self.maxs.y
    }

    /// The box that holds `pt` and nothing else.
    pub open spec fn spec_from_point(pt: PlacedPoint) -> Aabb {
        Aabb { mins: pt, maxs: pt }
    }

    /// Componentwise minimum of the lower corners and maximum of the upper
    /// corners.
    pub open spec fn spec_merged(self, other: Aabb) -> Aabb {
        Aabb {
            mins: PlacedPoint {
                x: if self.mins.x <= other.mins.x {
                    self.mins.x
                } else {
                    other.mins.x
                },
                y: if self.mins.y <= other.mins.y {
                    self.mins.y
                } else {
                    other.mins.y
                },
            },
            maxs: PlacedPoint {
                x: if self.maxs.x >= other.maxs.x {
                    self.maxs.x
                } else {
                    other.maxs.x
                },
                y: if self.maxs.y >= other.maxs.y {
                    self.maxs.y
                } else {
                    other.maxs.y
                },
            },
        }
    }

    /// Whether the two boxes overlap, faces included: boxes that only touch
    /// do intersect.
    pub open spec fn spec_intersects(self, other: Aabb) -> bool {
        &&& self.mins.x <= other.maxs.x
        &&& other.mins.x <= self.maxs.x
        &&& self.mins.y <= other.maxs.y
        &&& other.mins.y <= self.maxs.y
    }

    /// Whether `other` lies inside `self`, faces included.
    pub open spec fn spec_contains(self, other: Aabb) -> bool {
        &&& self.mins.x <= other.mins.x
        &&& self.mins.y <= other.mins.y
        &&& other.maxs.x <= self.maxs.x
        &&& other.maxs.y <= self.maxs.y
    }

    /// Whether the point `(x, y)` lies inside `self`, faces included.
    pub open spec fn spec_contains_xy(self, x: int, y: int) -> bool {
        &&& self.mins.x <= x <= self.maxs.x
        &&& self.mins.y <= y <= self.maxs.y
    }

    /// Whether `pt` lies inside `self`, faces included.
    pub open spec fn spec_contains_point(self, pt: PlacedPoint) -> bool {
        self.spec_contains_xy(pt.x as int, pt.y as int)
    }

    /// Whether both corners lie in the range that images of local points fall
    /// into.
    pub open spec fn in_placed_range(self) -> bool {
        self.mins.in_placed_range() && self.maxs.in_placed_range()
    }

    /// Whether the images of both corners of `self` under `pos` have
    /// coordinates that fit in 64 bits.
    pub open spec fn spec_transform_fits(self, pos: Isometry) -> bool {
        &&& i64::MIN <= pos.spec_image_x(self.mins.x as int, self.mins.y as int) <= i64::MAX
        &&& i64::MIN <= pos.spec_image_y(self.mins.x as int, self.mins.y as int) <= i64::MAX
        &&& i64::MIN <= pos.spec_image_x(self.maxs.x as int, self.maxs.y as int) <= i64::MAX
        &&& i64::MIN <= pos.spec_image_y(self.maxs.x as int, self.maxs.y as int) <= i64::MAX
    }

    /// The least box around the images of the two corners of `self` under
    /// `pos`; the invalid box if `self` is not valid. Where the images fit no
    /// truncation takes place: see [`Aabb::lemma_transform_by_exact`].
    pub open spec fn spec_transform_by(self, pos: Isometry) -> Aabb {
        if self.spec_is_valid() {
            let ax = pos.spec_image_x(self.mins.x as int, self.mins.y as int);
            let ay = pos.spec_image_y(self.mins.x as int, self.mins.y as int);
            let bx = pos.spec_image_x(self.maxs.x as int, self.maxs.y as int);
            let by = pos.spec_image_y(self.maxs.x as int, self.maxs.y as int);
            Aabb {
                mins: PlacedPoint {
                    x: vstd::math::min(ax, bx) as i64,
                    y: vstd::math::min(ay, by) as i64,
                },
                maxs: PlacedPoint {
                    x: vstd::math::max(ax, bx) as i64,
                    y: vstd::math::max(ay, by) as i64,
                },
            }
        } else {
            Aabb::spec_new_invalid()
        }
    }

    /// The box with the given corners.
    pub fn new(mins: PlacedPoint, maxs: PlacedPoint) -> (bb: Aabb)
        ensures
            bb.mins == mins,
            bb.maxs == maxs,
    {
        Aabb { mins, maxs }
    }

    /// The invalid box: its lower corner is the greatest point there is and
    /// its upper corner the least.
    pub fn new_invalid() -> (bb: Aabb)
        ensures
            bb == Aabb::spec_new_invalid(),
            !bb.spec_is_valid(),
    {
        Aabb {
            mins: PlacedPoint { x: i64::MAX, y: i64::MAX },
            maxs: PlacedPoint { x: i64::MIN, y: i64::MIN },
        }
    }

    /// The box that holds `pt` and nothing else.
    pub fn from_point(pt: PlacedPoint) -> (bb: Aabb)
        ensures
            bb == Aabb::spec_from_point(pt),
    {
        Aabb { mins: pt, maxs: pt }
    }

    /// Whether the lower corner is componentwise at most the upper corner.
    pub fn is_valid(&self) -> (valid: bool)
        ensures
            valid == self.spec_is_valid(),
    {
        self.mins.x <= self.maxs.x && self.mins.y <= self.maxs.y
    }

    /// Grows `self` to the least box that contains both `self` and `other`.
    pub fn merge(&mut self, other: &Aabb)
        ensures
            *final(self) == old(self).spec_merged(*other),
    {
        if other.mins.x < self.mins.x {
            self.mins.x = other.mins.x;
        }
        if other.mins.y < self.mins.y {
            self.mins.y = other.mins.y;
        }
        if other.maxs.x > self.maxs.x {
            self.maxs.x = other.maxs.x;
        }
        if other.maxs.y > self.maxs.y {
            self.maxs.y = other.maxs.y;
        }
    }

    /// The least box that contains both `self` and `other`.
    pub fn merged(&self, other: &Aabb) -> (bb: Aabb)
        ensures
            bb == self.spec_merged(*other),
    {
        let mut bb = *self;
        bb.merge(other);
        bb
    }

    /// Whether the two boxes overlap, faces included: boxes that only touch
    /// do intersect.
    pub fn intersects(&self, other: &Aabb) -> (hit: bool)
        ensures
            hit == self.spec_intersects(*other),
    {
        self.mins.x <= other.maxs.x && other.mins.x <= self.maxs.x && self.mins.y <= other.maxs.y
            && other.mins.y <= self.maxs.y
    }

    /// Whether `other` lies inside `self`, faces included.
    pub fn contains(&self, other: &Aabb) -> (inside: bool)
        ensures
            inside == self.spec_contains(*other),
    {
        self.mins.x <= other.mins.x && self.mins.y <= other.mins.y && other.maxs.x <= self.maxs.x
            && other.maxs.y <= self.maxs.y
    }

    /// Whether `pt` lies inside `self`, faces included.
    pub fn contains_point(&self, pt: &PlacedPoint) -> (inside: bool)
        ensures
            inside == self.spec_contains_point(*pt),
    {
        self.mins.x <= pt.x && pt.x <= self.maxs.x && self.mins.y <= pt.y && pt.y <= self.maxs.y
    }

    /// The bound of `self` after placement by `pos`. A placement maps boxes
    /// to boxes, so the result is exactly the image of `self`. A box that is
    /// not valid gives the invalid box.
    pub fn transform_by(&self, pos: &Isometry) -> (bb: Aabb)
        requires
            self.spec_is_valid() ==> self.spec_transform_fits(*pos),
        ensures
            bb == self.spec_transform_by(*pos),
    {
        if !self.is_valid() {
            return Aabb::new_invalid();
        }
        let tx: i128 = pos.translation.x as i128;
        let ty: i128 = pos.translation.y as i128;
        let x0: i128 = self.mins.x as i128;
        let y0: i128 = self.mins.y as i128;
        let x1: i128 = self.maxs.x as i128;
        let y1: i128 = self.maxs.y as i128;
        match pos.rotation {
            Rotation::Identity => Aabb {
                mins: PlacedPoint { x: (x0 + tx) as i64, y: (y0 + ty) as i64 },
                maxs: PlacedPoint { x: (x1 + tx) as i64, y: (y1 + ty) as i64 },
            },
            Rotation::Quarter => Aabb {
                mins: PlacedPoint { x: (-y1 + tx) as i64, y: (x0 + ty) as i64 },
                maxs: PlacedPoint { x: (-y0 + tx) as i64, y: (x1 + ty) as i64 },
            },
            Rotation::Half => Aabb {
                mins: PlacedPoint { x: (-x1 + tx) as i64, y: (-y1 + ty) as i64 },
                maxs: PlacedPoint { x: (-x0 + tx) as i64, y: (-y0 + ty) as i64 },
            },
            Rotation::ThreeQuarters => Aabb {
                mins: PlacedPoint { x: (y0 + tx) as i64, y: (-x1 + ty) as i64 },
                maxs: PlacedPoint { x: (y1 + tx) as i64, y: (-x0 + ty) as i64 },
            },
        }
    }

    /// Merging with the invalid box, on either side, changes nothing.
    pub proof fn lemma_merge_identity(self)
        ensures
            Aabb::spec_new_invalid().spec_merged(self) == self,
            self.spec_merged(Aabb::spec_new_invalid()) == self,
    {
    }

    /// The order of the two operands of a merge does not matter.
    pub proof fn lemma_merge_commutative(self, other: Aabb)
        ensures
            self.spec_merged(other) == other.spec_merged(self),
    {
    }

    /// Merging three boxes gives the same box however they are grouped.
    pub proof fn lemma_merge_associative(self, b: Aabb, c: Aabb)
        ensures
            self.spec_merged(b).spec_merged(c) == self.spec_merged(b.spec_merged(c)),
    {
    }

    /// The merge of two boxes contains both, and every box that contains both
    /// contains their merge.
    pub proof fn lemma_merged_is_least(self, other: Aabb, outer: Aabb)
        ensures
            self.spec_merged(other).spec_contains(self),
            self.spec_merged(other).spec_contains(other),
            outer.spec_contains(self) && outer.spec_contains(other) ==> outer.spec_contains(
                self.spec_merged(other),
            ),
    {
    }

    /// Two valid boxes intersect exactly when they have a point in common. In
    /// particular two boxes that share only a face or a corner intersect.
    pub proof fn lemma_intersects_iff_common_point(self, other: Aabb)
        requires
            self.spec_is_valid(),
            other.spec_is_valid(),
        ensures
            self.spec_intersects(other) <==> exists|x: int, y: int|
                #![trigger self.spec_contains_xy(x, y)]
                self.spec_contains_xy(x, y) && other.spec_contains_xy(x, y),
    {
        if self.spec_intersects(other) {
            let x = vstd::math::max(self.mins.x as int, other.mins.x as int);
            let y = vstd::math::max(self.mins.y as int, other.mins.y as int);
            assert(self.spec_contains_xy(x, y) && other.spec_contains_xy(x, y));
        }
    }

    /// The images of the corners of a box in the placed range fit, whatever
    /// the placement.
    pub proof fn lemma_placed_range_fits(self, pos: Isometry)
        requires
            self.in_placed_range(),
        ensures
            self.spec_transform_fits(pos),
    {
    }

    /// Placing a valid box whose images fit truncates nothing: each corner
    /// coordinate of the result is the least, or greatest, of the
    /// corresponding coordinates of the images of the two corners. The result
    /// is valid again.
    pub proof fn lemma_transform_by_exact(self, pos: Isometry)
        requires
            self.spec_is_valid(),
            self.spec_transform_fits(pos),
        ensures
            self.spec_transform_by(pos).mins.x == vstd::math::min(
                pos.spec_image_x(self.mins.x as int, self.mins.y as int),
                pos.spec_image_x(self.maxs.x as int, self.maxs.y as int),
            ),
            self.spec_transform_by(pos).mins.y == vstd::math::min(
                pos.spec_image_y(self.mins.x as int, self.mins.y as int),
                pos.spec_image_y(self.maxs.x as int, self.maxs.y as int),
            ),
            self.spec_transform_by(pos).maxs.x == vstd::math::max(
                pos.spec_image_x(self.mins.x as int, self.mins.y as int),
                pos.spec_image_x(self.maxs.x as int, self.maxs.y as int),
            ),
            self.spec_transform_by(pos).maxs.y == vstd::math::max(
                pos.spec_image_y(self.mins.x as int, self.mins.y as int),
                pos.spec_image_y(self.maxs.x as int, self.maxs.y as int),
            ),
            self.spec_transform_by(pos).spec_is_valid(),
    {
    }

    /// The placed box holds the images of the points of the box and of no
    /// other point: a point lies in `self` exactly when its image lies in the
    /// placed box.
    pub proof fn lemma_transform_by_is_image(self, pos: Isometry, x: int, y: int)
        requires
            self.spec_is_valid(),
            self.spec_transform_fits(pos),
        ensures
            self.spec_contains_xy(x, y) <==> self.spec_transform_by(pos).spec_contains_xy(
                pos.spec_image_x(x, y),
                pos.spec_image_y(x, y),
            ),
    {
    }
}

/// Every box of a sequence lies inside the merge of them all.
pub proof fn lemma_merge_all_contains(boxes: Seq<Aabb>, i: int)
    requires
        0 <= i < boxes.len(),
    ensures
        merge_all(boxes).spec_contains(boxes[i]),
    decreases boxes.len(),
{
    if i < boxes.len() - 1 {
        lemma_merge_all_contains(boxes.drop_last(), i);
    }
}

/// Every box that contains each box of a sequence contains the merge of them
/// all.
pub proof fn lemma_merge_all_is_least(boxes: Seq<Aabb>, outer: Aabb)
    requires
        forall|i: int| 0 <= i < boxes.len() ==> outer.spec_contains(#[trigger] boxes[i]),
    ensures
        outer.spec_contains(merge_all(boxes)),
    decreases boxes.len(),
{
    if boxes.len() > 0 {
        let front = boxes.drop_last();
        assert forall|i: int| 0 <= i < front.len() implies outer.spec_contains(
            #[trigger] front[i],
        ) by {
            assert(front[i] == boxes[i]);
        }
        lemma_merge_all_is_least(front, outer);
        assert(outer.spec_contains(boxes.last()));
    }
}

} // verus!
