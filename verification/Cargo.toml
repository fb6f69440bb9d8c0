[package]
name = "planets"
version = "0.2.0"
edition = "2021"
publish = false

[dependencies]
hecs = "=0.11.2"
vecmath = "=1.0.0"
interpolation = "=0.3.0"
piston = "=1.0.0"
piston2d-graphics = "=0.45.0"
piston2d-opengl_graphics = "=0.89.0"
pistoncore-glutin_window = "=0.73.2"
winit = "=0.30.13"
image = "=0.25.10"
assets_manager = { version = "=0.13.10", features = ["ron"] }
serde = { version = "=1.0.229", features = ["derive"] }
clap = "=3.2.25"
