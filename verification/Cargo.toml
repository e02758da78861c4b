[package]
name = "voxgrid"
version = "0.1.0"
edition = "2021"
publish = false

[dependencies]
ndarray = "*"
dot_vox = "*"
