//! Services shared by the stages: screen settings, textures and the entity
//! store.
pub mod gl;
pub mod queries;
pub mod rows;
pub mod texture;
pub mod world;
