//! Bounding volumes and the functions that compute them.

pub mod aabb;
mod aabb_convex_polygon;
pub mod details;

pub use aabb::{merge_all, Aabb};
pub use details::{local_point_cloud_aabb, point_cloud_aabb};
