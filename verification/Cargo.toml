[package]
name = "ray_tracing"
version = "0.1.0"
edition = "2021"
publish = false

[dependencies]
clap = { version = "4", features = ["derive"] }
exr = "1"
indicatif = { version = "0.17", features = ["rayon"] }
rand = "0.8"
rayon = "1"
serde = { version = "1", features = ["derive"] }
toml = "0.8"
