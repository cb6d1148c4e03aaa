[package]
name = "monero-vanity"
version = "0.4.3"
edition = "2021"
publish = false

[dependencies]
clap = { version = "=4.6.7", features = ["derive"] }
curve25519-dalek = "=5.0.0"
eframe = { version = "=0.21.3", default-features = false, features = ["default_fonts", "glow"] }
egui = "=0.21.0"
image = { version = "=0.24.9", default-features = false, features = ["png"] }
lazy_static = "=1.5.1"
monero = "=0.22.0"
rand = "=0.8.8"
readable = "=0.16.0"
regex = "=1.13.1"

[dev-dependencies]
base58-monero = "=2.1.0"
