//! Fixed-point scalars and the small vector types built from them.
pub mod root;
pub mod scalar;
pub mod vector;
