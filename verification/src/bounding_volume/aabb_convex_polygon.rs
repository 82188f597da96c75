//! The bound of a convex polygon.

use crate::bounding_volume::aabb::Aabb;
use crate::bounding_volume::details::{
    local_point_cloud_aabb, point_cloud_aabb, spec_is_tight_bound, spec_local_point_cloud_aabb,
    spec_place_all, spec_point_cloud_aabb, spec_widen_all,
};
use crate::math::Isometry;
use crate::shape::convex_polygon::ConvexPolygon;
use vstd::prelude::*;

verus! {

impl ConvexPolygon {
    /// The bound of this polygon after placement by `pos`.
    pub open spec fn spec_aabb(self, pos: Isometry) -> Aabb {
        spec_point_cloud_aabb(pos, self@)
    }

    /// The bound of this polygon in its own frame.
    pub open spec fn spec_local_aabb(self) -> Aabb {
        spec_local_point_cloud_aabb(self@)
    }

    /// The bound of this polygon after placement by `pos`: the tight bound of
    /// its placed vertices.
    pub fn aabb(&self, pos: &Isometry) -> (bb: Aabb)
        ensures
            bb == self.spec_aabb(*pos),
            spec_is_tight_bound(bb, spec_place_all(*pos, self@)),
    {
        point_cloud_aabb(pos, self.points())
    }

    /// The bound of this polygon in its own frame: the tight bound of its
    /// vertices.
    pub fn local_aabb(&self) -> (bb: Aabb)
        ensures
            bb == self.spec_local_aabb(),
            spec_is_tight_bound(bb, spec_widen_all(self@)),
    {
        local_point_cloud_aabb(self.points())
    }
}

} // verus!
