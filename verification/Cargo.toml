[package]
name = "voxel_core"
version = "0.1.0"
edition = "2021"
publish = false

[dependencies]
bincode = "=1.3.3"
gl = "=0.14.0"
lazy_static = "=1.5.1"
log = { version = "=0.4.34", features = ["std"] }
notify = "=6.1.1"
serde = { version = "=1.0.229", features = ["derive"] }
termcolor = "=1.4.1"
