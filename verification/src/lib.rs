//! A small two-dimensional rigid-body physics step over fixed-point numbers:
//! gravity integration, sort-and-sweep pair pruning, bounding-box overlap
//! testing and impulse-based collision resolution.
pub mod input;
pub mod math;
pub mod physics;
pub mod view;
