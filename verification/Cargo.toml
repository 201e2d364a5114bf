[package]
name = "htm_index"
version = "0.1.0"
edition = "2021"
publish = false

[dependencies]
nalgebra = "*"

[dev-dependencies]
ncollide3d = "*"
