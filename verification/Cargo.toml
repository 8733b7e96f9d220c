[package]
name = "exr_meta"
version = "0.1.0"
edition = "2021"
publish = false

[dependencies]
memmap2 = "*"
serde = { version = "*", features = ["derive"] }
serde_json = "*"
rayon = "*"
