//! Verified core of an n-body gravitational simulator.
//!
//! The crate holds the discrete part of the simulator: the entity store and
//! the components kept in it, which entities each system takes and what it
//! leaves behind, the life cycle of traces, the camera's zoom and tracking
//! state, the speed presets, the loading sequence and the parsing of the
//! screen resolution. Numbers that the simulation computes with are carried
//! as bit patterns (see [`scalar`]); the arithmetic on them is the host's,
//! which hands its results to the systems.
pub mod scalar;
pub mod runtime;
pub mod physics;
pub mod render;
pub mod loader;
pub mod model;
pub mod simulation;
