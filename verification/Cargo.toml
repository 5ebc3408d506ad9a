[package]
name = "ca04"
version = "0.1.0"
edition = "2021"
publish = false

[dependencies]
hilbert = "0.1.2"
indexmap = "2"
num-bigint = "*"
rand = "0.8"
serde = { version = "1", features = ["derive"] }
serde_json = "1"
serde_with = { version = "3", default-features = false, features = ["std", "macros", "json"] }
pistoncore-sdl2_window = "*"
piston2d-graphics = "*"
piston2d-gfx_graphics = "*"
gfx_device_gl = "*"
find_folder = "*"
fps_counter = "*"
