[package]
name = "echo_li"
version = "0.1.0"
edition = "2021"
publish = false

[dependencies]
anyhow = "1"
clap = { version = "4", features = ["derive"] }
env_logger = "0.11"
image = { version = "0.25", default-features = false, features = ["png", "jpeg"] }
log = "0.4"
nalgebra = "0.33"
rayon = "1"
serde = { version = "1", features = ["derive"] }
serde_yaml = "0.9"
