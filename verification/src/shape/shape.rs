//! The closed family of shapes.

use crate::bounding_volume::aabb::Aabb;
use crate::math::Isometry;
use crate::shape::compound::Compound;
use crate::shape::convex_polygon::ConvexPolygon;
use vstd::prelude::*;

verus! {

/// A shape of any kind. Code that handles shapes without regard to their kind
/// asks a shape for its bound with [`Shape::compute_aabb`], and for its parts,
/// if it is made of parts, with [`Shape::as_composite_shape`].
#[derive(Debug)]
pub enum Shape {
    ConvexPolygon(ConvexPolygon),
    Compound(Compound),
}

impl Shape {
    /// The bound of this shape after placement by `pos`.
    pub open spec fn spec_compute_aabb(self, pos: Isometry) -> Aabb {
        match self {
            Shape::ConvexPolygon(poly) => poly.spec_aabb(pos),
            Shape::Compound(compound) => compound.spec_compute_aabb(pos),
        }
    }

    /// Whether this shape is made of parts.
    pub open spec fn spec_is_composite(self) -> bool {
        self is Compound
    }

    /// The bound of this shape after placement by `pos`.
    pub fn compute_aabb(&self, pos: &Isometry) -> (bb: Aabb)
        ensures
            bb == self.spec_compute_aabb(*pos),
    {
        match self {
            Shape::ConvexPolygon(poly) => poly.aabb(pos),
            Shape::Compound(compound) => compound.compute_aabb(pos),
        }
    }

    /// This shape as a shape made of parts, if it is one. A primitive gives
    /// `None`.
    pub fn as_composite_shape(&self) -> (composite: Option<&Compound>)
        ensures
            composite is Some <==> self.spec_is_composite(),
            composite matches Some(compound) ==> *self == Shape::Compound(*compound),
    {
        match self {
            Shape::ConvexPolygon(_) => None,
            Shape::Compound(compound) => Some(compound),
        }
    }
}

} // verus!
