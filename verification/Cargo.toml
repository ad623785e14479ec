[package]
name = "riff"
version = "0.1.0"
edition = "2021"
publish = false

[dependencies]
chrono = "0.4"
clap = { version = "4", features = ["derive"] }
image = { version = "0.25", default-features = false, features = ["png", "jpeg"] }
libc = "0.2"
serde = { version = "1", features = ["derive"] }
serde_json = "1"
