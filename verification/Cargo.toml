[package]
name = "infinite_grid_2d"
version = "0.1.0"
edition = "2021"
publish = false

[dependencies]
bevy = { version = "0.16", default-features = false, features = ["bevy_render", "bevy_color"] }
