//! Bounding-volume hierarchy construction for triangle meshes.
//!
//! Coordinates are totally ordered integer values; a caller that works in
//! another ordered scalar domain maps its values through any order-preserving
//! encoding before building. The library computes tightest axis-aligned
//! bounding boxes and a flat, pre-order list of boxes for a balanced
//! positional bisection of the triangle array.

pub mod aabb;
pub mod geometry;
pub mod hierarchy;
pub mod mesh;
pub mod viewer;
