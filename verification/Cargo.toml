[package]
name = "devsak"
version = "0.1.0"
edition = "2021"
publish = false

[dependencies]
base64 = "=0.22.1"
egui = { version = "=0.27.2", default-features = false }
serde = { version = "=1.0.229", features = ["derive"] }
