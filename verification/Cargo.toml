[package]
name = "terrain_editor"
version = "0.1.0"
edition = "2021"
publish = false

[dependencies]
egui = "0.19"
gl = "0.14"
glam = "0.20"
glutin = "0.28"
thiserror = "1.0"
