//! Spatial partitioning.

pub mod quadtree;

pub use quadtree::{spec_intersecting, QuadTree};
