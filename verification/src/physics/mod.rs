//! The bodies' physical state and the systems that act on it.
pub mod force;
pub mod gravity;
pub mod motion;
pub mod propulsion;
pub mod universe;
