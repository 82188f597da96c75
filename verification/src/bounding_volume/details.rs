//! Bounds of point clouds.

use crate::bounding_volume::aabb::{merge_all, Aabb};
use crate::math::{Isometry, PlacedPoint, Point};
use vstd::prelude::*;

verus! {

/// The images of the points of `pts` under `pos`, in order.
pub open spec fn spec_place_all(pos: Isometry, pts: Seq<Point>) -> Seq<PlacedPoint> {
    Seq::new(pts.len(), |i: int| pos.spec_transform_point(pts[i]))
}

/// The points of `pts` as they stand, in placed coordinates.
pub open spec fn spec_widen_all(pts: Seq<Point>) -> Seq<PlacedPoint> {
    Seq::new(pts.len(), |i: int| PlacedPoint { x: pts[i].x as i64, y: pts[i].y as i64 })
}

/// The one-point boxes of `placed`, in order.
pub open spec fn spec_point_boxes(placed: Seq<PlacedPoint>) -> Seq<Aabb> {
    Seq::new(placed.len(), |i: int| Aabb::spec_from_point(placed[i]))
}

/// The merge of the one-point boxes of `placed`: the invalid box if there is
/// no point.
pub open spec fn spec_bound_of_points(placed: Seq<PlacedPoint>) -> Aabb {
    merge_all(spec_point_boxes(placed))
}

/// Whether `bb` is the tight bound of `placed`: the invalid box if there is no
/// point; else a box that holds every point and has a point on each of its
/// four faces.
pub open spec fn spec_is_tight_bound(bb: Aabb, placed: Seq<PlacedPoint>) -> bool {
    if placed.len() == 0 {
        bb == Aabb::spec_new_invalid()
    } else {
        &&& forall|i: int| 0 <= i < placed.len() ==> bb.spec_contains_point(#[trigger] placed[i])
        &&& exists|i: int| 0 <= i < placed.len() && (#[trigger] placed[i]).x == bb.mins.x
        &&& exists|i: int| 0 <= i < placed.len() && (#[trigger] placed[i]).y == bb.mins.y
        &&& exists|i: int| 0 <= i < placed.len() && (#[trigger] placed[i]).x == bb.maxs.x
        &&& exists|i: int| 0 <= i < placed.len() && (#[trigger] placed[i]).y == bb.maxs.y
    }
}

/// The bound of the points of `pts` after placement by `pos`.
pub open spec fn spec_point_cloud_aabb(pos: Isometry, pts: Seq<Point>) -> Aabb {
    spec_bound_of_points(spec_place_all(pos, pts))
}

/// The bound of the points of `pts` where they stand.
pub open spec fn spec_local_point_cloud_aabb(pts: Seq<Point>) -> Aabb {
    spec_bound_of_points(spec_widen_all(pts))
}

/// The merge of the one-point boxes of a point sequence is its tight bound.
pub proof fn lemma_bound_of_points_is_tight(placed: Seq<PlacedPoint>)
    ensures
        spec_is_tight_bound(spec_bound_of_points(placed), placed),
    decreases placed.len(),
{
    if placed.len() > 0 {
        let front = placed.drop_last();
        let before = spec_bound_of_points(front);
        let bb = spec_bound_of_points(placed);
        assert(spec_point_boxes(placed).drop_last() =~= spec_point_boxes(front));
        assert(bb == before.spec_merged(Aabb::spec_from_point(placed.last())));
        lemma_bound_of_points_is_tight(front);
        if front.len() > 0 {
            // Each face of the bound so far has a point on it; after the
            // merge the face holds that point still, or the new point.
            let ix = choose|i: int|
                0 <= i < front.len() && (#[trigger] front[i]).x == before.mins.x;
            let iy = choose|i: int|
                0 <= i < front.len() && (#[trigger] front[i]).y == before.mins.y;
            let jx = choose|i: int|
                0 <= i < front.len() && (#[trigger] front[i]).x == before.maxs.x;
            let jy = choose|i: int|
                0 <= i < front.len() && (#[trigger] front[i]).y == before.maxs.y;
            assert(placed[ix] == front[ix] && placed[iy] == front[iy]);
            assert(placed[jx] == front[jx] && placed[jy] == front[jy]);
            assert forall|i: int| 0 <= i < placed.len() implies bb.spec_contains_point(
                #[trigger] placed[i],
            ) by {
                if i < front.len() {
                    assert(front[i] == placed[i]);
                }
            }
        }
    }
}

/// A point sequence has one tight bound only.
pub proof fn lemma_tight_bound_unique(a: Aabb, b: Aabb, placed: Seq<PlacedPoint>)
    requires
        spec_is_tight_bound(a, placed),
        spec_is_tight_bound(b, placed),
    ensures
        a == b,
{
}

/// The bound of a point cloud is valid exactly when the cloud is not empty,
/// and then it lies in the placed range if all its points do.
pub proof fn lemma_bound_of_points_valid(placed: Seq<PlacedPoint>)
    ensures
        spec_bound_of_points(placed).spec_is_valid() <==> placed.len() > 0,
        (forall|i: int| 0 <= i < placed.len() ==> (#[trigger] placed[i]).in_placed_range())
            && placed.len() > 0 ==> spec_bound_of_points(placed).in_placed_range(),
{
    lemma_bound_of_points_is_tight(placed);
}

/// Under the identity placement the bound of a point cloud is its local
/// bound.
pub proof fn lemma_point_cloud_aabb_identity(pts: Seq<Point>)
    ensures
        spec_point_cloud_aabb(Isometry::spec_identity(), pts) == spec_local_point_cloud_aabb(pts),
{
    assert(spec_place_all(Isometry::spec_identity(), pts) =~= spec_widen_all(pts));
}

/// One more point grows the bound by the merge with that point's box.
proof fn lemma_bound_of_points_step(placed: Seq<PlacedPoint>, n: int)
    requires
        0 <= n < placed.len(),
    ensures
        spec_bound_of_points(placed.take(n + 1)) == spec_bound_of_points(
            placed.take(n),
        ).spec_merged(Aabb::spec_from_point(placed[n])),
{
    assert(spec_point_boxes(placed.take(n + 1)).drop_last() =~= spec_point_boxes(placed.take(n)));
}

/// The tight bound of the points of `pts` after placement by `pos`; the
/// invalid box if `pts` is empty.
pub fn point_cloud_aabb(pos: &Isometry, pts: &[Point]) -> (bb: Aabb)
    ensures
        bb == spec_point_cloud_aabb(*pos, pts@),
        spec_is_tight_bound(bb, spec_place_all(*pos, pts@)),
{
    let ghost placed = spec_place_all(*pos, pts@);
    let mut bb = Aabb::new_invalid();
    let mut i: usize = 0;
    while i < pts.len()
        invariant
            i <= pts.len(),
            placed == spec_place_all(*pos, pts@),
            bb == spec_bound_of_points(placed.take(i as int)),
        decreases pts.len() - i,
    {
        let image = pos.transform_point(&pts[i]);
        proof {
            lemma_bound_of_points_step(placed, i as int);
        }
        bb.merge(&Aabb::from_point(image));
        i += 1;
    }
    proof {
        assert(placed.take(i as int) =~= placed);
        lemma_bound_of_points_is_tight(placed);
    }
    bb
}

/// The tight bound of the points of `pts` where they stand; the invalid box
/// if `pts` is empty.
pub fn local_point_cloud_aabb(pts: &[Point]) -> (bb: Aabb)
    ensures
        bb == spec_local_point_cloud_aabb(pts@),
        spec_is_tight_bound(bb, spec_widen_all(pts@)),
{
    let ghost placed = spec_widen_all(pts@);
    let mut bb = Aabb::new_invalid();
    let mut i: usize = 0;
    while i < pts.len()
        invariant
            i <= pts.len(),
            placed == spec_widen_all(pts@),
            bb == spec_bound_of_points(placed.take(i as int)),
        decreases pts.len() - i,
    {
        let pt = PlacedPoint { x: pts[i].x as i64, y: pts[i].y as i64 };
        proof {
            lemma_bound_of_points_step(placed, i as int);
        }
        bb.merge(&Aabb::from_point(pt));
        i += 1;
    }
    proof {
        assert(placed.take(i as int) =~= placed);
        lemma_bound_of_points_is_tight(placed);
    }
    bb
}

} // verus!
