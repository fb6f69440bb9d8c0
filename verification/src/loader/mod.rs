//! Bringing the scene into the world, one model in a tick.
pub mod model_loader;
pub mod state;
