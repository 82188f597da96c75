//! Collision geometry on the integer lattice: axis-aligned bounding boxes,
//! bounds of placed point clouds, and compound shapes assembled from
//! primitive parts, each with its own placement.
//!
//! All coordinates are exact integers. Local geometry and placements use
//! 32-bit coordinates, placed geometry and bounds use 64-bit coordinates, so
//! placing a point can never overflow.

pub mod bounding_volume;
pub mod math;
pub mod partitioning;
pub mod shape;

pub use bounding_volume::{local_point_cloud_aabb, merge_all, point_cloud_aabb, Aabb};
pub use math::{Isometry, PlacedPoint, Point, Rotation};
pub use partitioning::QuadTree;
pub use shape::{Compound, CompoundError, ConvexPolygon, Shape};
