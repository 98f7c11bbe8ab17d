//! Bodies, entities, the entity store and the physics step.
pub mod body;
pub mod engine;
pub mod entity;
pub mod impulse;
pub mod laws;
pub mod store;
pub mod sweep;
