[package]
name = "grid_occupancy"
version = "0.1.0"
edition = "2021"
publish = false

[dependencies]
rand = "=0.7.3"
bevy = { version = "=0.6.1", default-features = false, features = ["render", "bevy_winit", "x11"] }
# bevy's derive crates of this version use syn's `full` feature without
# asking for it; this line switches it on for them.
num_enum = { version = "0.5", features = ["complex-expressions"] }
