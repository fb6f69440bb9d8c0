//! What is shown of the simulation, and how the camera looks at it.
pub mod background;
pub mod camera;
pub mod circle;
pub mod name;
pub mod render_box;
pub mod renderer;
pub mod sprite;
pub mod trace;
