[package]
name = "fig_viewer"
version = "0.1.0"
edition = "2021"
publish = false

[dependencies]
anyhow = "1"
base64 = "0.22"
glam = "*"
log = "0.4"
schemars = "*"
serde = { version = "1", features = ["derive"] }
serde_json = "1"
smallvec = "1"
