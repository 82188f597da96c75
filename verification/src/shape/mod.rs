//! Shapes: primitives, and the compound shape made of them.

pub mod compound;
pub mod convex_polygon;
pub mod shape;

pub use compound::{Compound, CompoundError};
pub use convex_polygon::ConvexPolygon;
pub use shape::Shape;
